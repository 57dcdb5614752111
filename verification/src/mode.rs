//! The closed set of telemetry modes.
//!
//! Each mode fixes how many channels an incoming line must carry and how the
//! channels are labelled.  The mode is changed only by explicit operator
//! selection, never inferred from the data.

use vstd::prelude::*;

verus! {

/// A named telemetry configuration: channel count plus channel labels.
///
/// `Idle` is the initial state: no mode selected, dimension 0, no labels.
#[derive(Clone, Copy, PartialEq, Eq, Structural, Debug)]
pub enum Mode {
    Idle,
    Imu,
    Attitude,
    Pid,
    Mix,
    Dshot,
}

impl Mode {
    /// Channel count required of every incoming line while this mode is active.
    pub open spec fn spec_dimension(self) -> nat {
        match self {
            Mode::Idle => 0,
            Mode::Imu => 9,
            Mode::Attitude => 3,
            Mode::Pid => 4,
            Mode::Mix => 4,
            Mode::Dshot => 4,
        }
    }

    /// Position of this mode in the closed enumeration, used on the wire.
    pub open spec fn spec_ordinal(self) -> u8 {
        match self {
            Mode::Idle => 0,
            Mode::Imu => 1,
            Mode::Attitude => 2,
            Mode::Pid => 3,
            Mode::Mix => 4,
            Mode::Dshot => 5,
        }
    }

    /// The channel labels of this mode, as character sequences.
    pub open spec fn spec_labels(self) -> Seq<Seq<char>> {
        match self {
            Mode::Idle => seq![],
            Mode::Imu => seq![
                "gyr(x)"@, "gyr(y)"@, "gyr(z)"@,
                "acc(x)"@, "acc(y)"@, "acc(z)"@,
                "mag(x)"@, "mag(y)"@, "mag(z)"@,
            ],
            Mode::Attitude => seq!["roll"@, "pitch"@, "yaw"@],
            Mode::Pid => seq!["throttle"@, "roll"@, "pitch"@, "yaw"@],
            Mode::Mix => seq!["M1"@, "M2"@, "M3"@, "M4"@],
            Mode::Dshot => seq!["M1"@, "M2"@, "M3"@, "M4"@],
        }
    }

    pub fn dimension(self) -> (d: usize)
        ensures
            d == self.spec_dimension(),
    {
        match self {
            Mode::Idle => 0,
            Mode::Imu => 9,
            Mode::Attitude => 3,
            Mode::Pid => 4,
            Mode::Mix => 4,
            Mode::Dshot => 4,
        }
    }

    pub fn ordinal(self) -> (d: u8)
        ensures
            d == self.spec_ordinal(),
    {
        match self {
            Mode::Idle => 0,
            Mode::Imu => 1,
            Mode::Attitude => 2,
            Mode::Pid => 3,
            Mode::Mix => 4,
            Mode::Dshot => 5,
        }
    }

    pub fn labels(self) -> (r: Vec<&'static str>)
        ensures
            r.deep_view() == self.spec_labels(),
            r@.len() == self.spec_dimension(),
    {
        let r: Vec<&'static str> = match self {
            Mode::Idle => Vec::new(),
            Mode::Imu => vec![
                "gyr(x)", "gyr(y)", "gyr(z)",
                "acc(x)", "acc(y)", "acc(z)",
                "mag(x)", "mag(y)", "mag(z)",
            ],
            Mode::Attitude => vec!["roll", "pitch", "yaw"],
            Mode::Pid => vec!["throttle", "roll", "pitch", "yaw"],
            Mode::Mix => vec!["M1", "M2", "M3", "M4"],
            Mode::Dshot => vec!["M1", "M2", "M3", "M4"],
        };
        proof {
            assert(r.deep_view() =~= self.spec_labels());
        }
        r
    }

    /// The reconfiguration command sent to the device on a mode change:
    /// one ASCII digit holding the mode's ordinal, then a newline.
    pub open spec fn spec_command(self) -> Seq<u8> {
        seq![(48 + self.spec_ordinal()) as u8, 10u8]
    }

    pub fn command_bytes(self) -> (r: Vec<u8>)
        ensures
            r@ == self.spec_command(),
    {
        let ord = self.ordinal();
        let r: Vec<u8> = vec![48u8 + ord, 10u8];
        proof {
            assert(r@ =~= self.spec_command());
        }
        r
    }

    /// Every mode, in enumeration order, for operator-facing selectors.
    pub fn all_modes() -> (r: Vec<Mode>)
        ensures
            r@ == seq![
                Mode::Idle, Mode::Imu, Mode::Attitude, Mode::Pid, Mode::Mix, Mode::Dshot,
            ],
    {
        let r: Vec<Mode> = vec![
            Mode::Idle, Mode::Imu, Mode::Attitude, Mode::Pid, Mode::Mix, Mode::Dshot,
        ];
        proof {
            assert(r@ =~= seq![
                Mode::Idle, Mode::Imu, Mode::Attitude, Mode::Pid, Mode::Mix, Mode::Dshot,
            ]);
        }
        r
    }
}

} // verus!
