use bloblib::encoders::{combine_readings, group_encoder_type, last_failure, reset_count, EncoderType};

#[test]
fn empty_group_is_a_motor() {
    assert_eq!(group_encoder_type(&vec![]), EncoderType::Motor);
}

#[test]
fn group_type_is_first_members() {
    assert_eq!(
        group_encoder_type(&vec![EncoderType::RotationSensor, EncoderType::AdiEncoder]),
        EncoderType::RotationSensor
    );
    assert_eq!(group_encoder_type(&vec![EncoderType::AdiEncoder]), EncoderType::AdiEncoder);
}

#[test]
fn readings_average_over_successes() {
    assert_eq!(combine_readings(&vec![true, false, true]), Ok(2));
    assert_eq!(combine_readings(&vec![true, true, true, true]), Ok(4));
    assert_eq!(combine_readings(&vec![false, false, true]), Ok(1));
}

#[test]
fn all_failed_reports_last_failure() {
    assert_eq!(combine_readings(&vec![false, false, false]), Err(2));
    assert_eq!(combine_readings(&vec![false]), Err(0));
}

#[test]
fn empty_group_reads_over_nothing() {
    assert_eq!(combine_readings(&vec![]), Ok(0));
}

#[test]
fn last_failure_index() {
    assert_eq!(last_failure(&vec![true, false, true, false, true]), Some(3));
    assert_eq!(last_failure(&vec![true, true]), None);
    assert_eq!(last_failure(&vec![]), None);
    assert_eq!(last_failure(&vec![false]), Some(0));
}

#[test]
fn reset_skips_last_member() {
    assert_eq!(reset_count(0), 0);
    assert_eq!(reset_count(1), 0);
    assert_eq!(reset_count(3), 2);
}
