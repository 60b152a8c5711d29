use wmbus::stack::ffa::get_frame_length_from_data_length;

#[test]
fn can_get_frame_length() {
    assert!(get_frame_length_from_data_length(0).is_err());
    assert!(get_frame_length_from_data_length(10).is_err());
    assert_eq!(
        Ok(10 + 2 + 1 + 2),
        get_frame_length_from_data_length(10 + 1)
    );
    assert_eq!(
        Ok(10 + 2 + 16 + 2),
        get_frame_length_from_data_length(10 + 16)
    );
    assert_eq!(
        Ok(10 + 2 + 16 + 2 + 1 + 2),
        get_frame_length_from_data_length(10 + 16 + 1)
    );
    assert_eq!(
        Ok(10 + 2 + 2 * (16 + 2)),
        get_frame_length_from_data_length(10 + 2 * 16)
    );
    assert_eq!(
        Ok(10 + 2 + 2 * (16 + 2) + 1 + 2),
        get_frame_length_from_data_length(10 + 2 * 16 + 1)
    );
    assert_eq!(
        Ok(10 + 2 + 3 * (16 + 2)),
        get_frame_length_from_data_length(10 + 3 * 16)
    );
    assert_eq!(
        Ok(10 + 2 + 15 * (16 + 2)),
        get_frame_length_from_data_length(10 + 15 * 16)
    );
    assert_eq!(
        Ok(10 + 2 + 15 * (16 + 2) + 1 + 2),
        get_frame_length_from_data_length(10 + 15 * 16 + 1)
    );
    assert_eq!(
        Ok(10 + 2 + 15 * (16 + 2) + 5 + 2),
        get_frame_length_from_data_length(10 + 15 * 16 + 5)
    );
}

#[test]
fn frame_length_is_bounded_and_monotone() {
    let mut previous: usize = 0;
    for data_length in 11..=256usize {
        let frame_length = get_frame_length_from_data_length(data_length).unwrap();
        assert!(frame_length <= 290);
        assert!(frame_length >= previous);
        previous = frame_length;
    }
}
