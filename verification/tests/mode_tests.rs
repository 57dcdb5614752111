use teleplot_core::mode::Mode;

#[test]
fn dimensions_match_the_mode_table() {
    assert_eq!(Mode::Idle.dimension(), 0);
    assert_eq!(Mode::Imu.dimension(), 9);
    assert_eq!(Mode::Attitude.dimension(), 3);
    assert_eq!(Mode::Pid.dimension(), 4);
    assert_eq!(Mode::Mix.dimension(), 4);
    assert_eq!(Mode::Dshot.dimension(), 4);
}

#[test]
fn labels_are_one_per_channel() {
    for m in Mode::all_modes() {
        assert_eq!(m.labels().len(), m.dimension());
    }
    assert_eq!(Mode::Attitude.labels(), vec!["roll", "pitch", "yaw"]);
    assert_eq!(Mode::Pid.labels(), vec!["throttle", "roll", "pitch", "yaw"]);
    assert_eq!(Mode::Mix.labels(), vec!["M1", "M2", "M3", "M4"]);
    assert_eq!(
        Mode::Imu.labels(),
        vec![
            "gyr(x)", "gyr(y)", "gyr(z)", "acc(x)", "acc(y)", "acc(z)", "mag(x)", "mag(y)",
            "mag(z)",
        ]
    );
}

#[test]
fn wire_command_is_ordinal_digit_and_newline() {
    assert_eq!(Mode::Idle.command_bytes(), b"0\n".to_vec());
    assert_eq!(Mode::Imu.command_bytes(), b"1\n".to_vec());
    assert_eq!(Mode::Attitude.command_bytes(), b"2\n".to_vec());
    assert_eq!(Mode::Pid.command_bytes(), b"3\n".to_vec());
    assert_eq!(Mode::Mix.command_bytes(), b"4\n".to_vec());
    assert_eq!(Mode::Dshot.command_bytes(), b"5\n".to_vec());
}

#[test]
fn all_modes_lists_the_closed_enumeration() {
    let all = Mode::all_modes();
    assert_eq!(
        all,
        vec![Mode::Idle, Mode::Imu, Mode::Attitude, Mode::Pid, Mode::Mix, Mode::Dshot]
    );
}
