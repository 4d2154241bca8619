//! The settings the analytics and the front end read, as a plain value that
//! the caller loads, passes in and stores.

use crate::error::TrackerError;
use crate::model::Units;
use crate::pb::PBInfo;
use crate::text::{lowercase, std_to_lowercase};
use vstd::prelude::*;
use vstd::string::StringExecFns;

verus! {

/// A colour for the headers of tables.
#[derive(Clone, Copy, Debug, PartialEq, Eq, Structural)]
pub enum ThemeColor {
    Black,
    Red,
    Green,
    Yellow,
    Blue,
    Magenta,
    Cyan,
    White,
    Grey,
    DarkGrey,
    DarkRed,
    DarkGreen,
    DarkYellow,
    DarkBlue,
    DarkMagenta,
    DarkCyan,
}

/// The name a colour goes by in the settings.
pub open spec fn spec_color_name(color: ThemeColor) -> Seq<char> {
    match color {
        ThemeColor::Black => "black"@,
        ThemeColor::Red => "red"@,
        ThemeColor::Green => "green"@,
        ThemeColor::Yellow => "yellow"@,
        ThemeColor::Blue => "blue"@,
        ThemeColor::Magenta => "magenta"@,
        ThemeColor::Cyan => "cyan"@,
        ThemeColor::White => "white"@,
        ThemeColor::Grey => "grey"@,
        ThemeColor::DarkGrey => "darkgrey"@,
        ThemeColor::DarkRed => "darkred"@,
        ThemeColor::DarkGreen => "darkgreen"@,
        ThemeColor::DarkYellow => "darkyellow"@,
        ThemeColor::DarkBlue => "darkblue"@,
        ThemeColor::DarkMagenta => "darkmagenta"@,
        ThemeColor::DarkCyan => "darkcyan"@,
    }
}

/// The colour that a text names, letter case aside, or `None` where it names
/// none.
pub open spec fn spec_parse_color(text: Seq<char>) -> Option<ThemeColor> {
    let name = lowercase(text);
    if name == "black"@ {
        Some(ThemeColor::Black)
    } else if name == "red"@ {
        Some(ThemeColor::Red)
    } else if name == "green"@ {
        Some(ThemeColor::Green)
    } else if name == "yellow"@ {
        Some(ThemeColor::Yellow)
    } else if name == "blue"@ {
        Some(ThemeColor::Blue)
    } else if name == "magenta"@ {
        Some(ThemeColor::Magenta)
    } else if name == "cyan"@ {
        Some(ThemeColor::Cyan)
    } else if name == "white"@ {
        Some(ThemeColor::White)
    } else if name == "grey"@ {
        Some(ThemeColor::Grey)
    } else if name == "darkgrey"@ {
        Some(ThemeColor::DarkGrey)
    } else if name == "darkred"@ {
        Some(ThemeColor::DarkRed)
    } else if name == "darkgreen"@ {
        Some(ThemeColor::DarkGreen)
    } else if name == "darkyellow"@ {
        Some(ThemeColor::DarkYellow)
    } else if name == "darkblue"@ {
        Some(ThemeColor::DarkBlue)
    } else if name == "darkmagenta"@ {
        Some(ThemeColor::DarkMagenta)
    } else if name == "darkcyan"@ {
        Some(ThemeColor::DarkCyan)
    } else {
        None
    }
}

/// Which personal bests the athlete wants to hear of.
#[derive(Clone, Copy, Debug, PartialEq, Eq, Structural)]
pub struct PbNotificationConfig {
    /// The global switch; `None` while the athlete was never asked.
    pub enabled: Option<bool>,
    pub notify_weight: bool,
    pub notify_reps: bool,
    pub notify_duration: bool,
    pub notify_distance: bool,
}

/// The settings.
#[derive(Clone, Copy, Debug, PartialEq, Eq, Structural)]
pub struct Config {
    pub units: Units,
    pub prompt_for_bodyweight: bool,
    /// The widest gap in days that still continues a streak; at least one.
    pub streak_interval_days: u32,
    /// Thousandths of the weight unit.
    pub target_bodyweight: Option<i64>,
    pub pb_notifications: PbNotificationConfig,
    /// The colour of table headers; `None` leaves each table its own.
    pub header_color: Option<ThemeColor>,
}

/// What to do about the personal bests of a workout just logged.
#[derive(Clone, Copy, Debug, PartialEq, Eq, Structural)]
pub enum PbNotice {
    /// Say nothing.
    Nothing,
    /// Show the bests.
    Show,
    /// Ask the athlete whether to be told of bests, then go by the answer.
    AskFirst,
}

/// Whether a best was achieved in a metric whose notification is switched
/// on.
pub open spec fn spec_relevant_pb_achieved(pb: PBInfo, settings: PbNotificationConfig) -> bool {
    ||| pb.weight.achieved && settings.notify_weight
    ||| pb.reps.achieved && settings.notify_reps
    ||| pb.duration.achieved && settings.notify_duration
    ||| pb.distance.achieved && settings.notify_distance
}

/// What to do about the bests of a workout under the given settings.
pub open spec fn spec_pb_notice(pb: PBInfo, settings: PbNotificationConfig) -> PbNotice {
    if !spec_relevant_pb_achieved(pb, settings) {
        PbNotice::Nothing
    } else {
        match settings.enabled {
            Some(true) => PbNotice::Show,
            Some(false) => PbNotice::Nothing,
            None => PbNotice::AskFirst,
        }
    }
}

/// The name a colour goes by in the settings.
pub fn color_name(color: ThemeColor) -> (r: &'static str)
    ensures
        r@ == spec_color_name(color),
{
    match color {
        ThemeColor::Black => "black",
        ThemeColor::Red => "red",
        ThemeColor::Green => "green",
        ThemeColor::Yellow => "yellow",
        ThemeColor::Blue => "blue",
        ThemeColor::Magenta => "magenta",
        ThemeColor::Cyan => "cyan",
        ThemeColor::White => "white",
        ThemeColor::Grey => "grey",
        ThemeColor::DarkGrey => "darkgrey",
        ThemeColor::DarkRed => "darkred",
        ThemeColor::DarkGreen => "darkgreen",
        ThemeColor::DarkYellow => "darkyellow",
        ThemeColor::DarkBlue => "darkblue",
        ThemeColor::DarkMagenta => "darkmagenta",
        ThemeColor::DarkCyan => "darkcyan",
    }
}

/// Reads the name of a colour, letter case aside.
pub fn parse_color(text: &str) -> (r: Option<ThemeColor>)
    ensures
        r == spec_parse_color(text@),
{
    let name = std_to_lowercase(text);
    if name == String::from_str("black") {
        Some(ThemeColor::Black)
    } else if name == String::from_str("red") {
        Some(ThemeColor::Red)
    } else if name == String::from_str("green") {
        Some(ThemeColor::Green)
    } else if name == String::from_str("yellow") {
        Some(ThemeColor::Yellow)
    } else if name == String::from_str("blue") {
        Some(ThemeColor::Blue)
    } else if name == String::from_str("magenta") {
        Some(ThemeColor::Magenta)
    } else if name == String::from_str("cyan") {
        Some(ThemeColor::Cyan)
    } else if name == String::from_str("white") {
        Some(ThemeColor::White)
    } else if name == String::from_str("grey") {
        Some(ThemeColor::Grey)
    } else if name == String::from_str("darkgrey") {
        Some(ThemeColor::DarkGrey)
    } else if name == String::from_str("darkred") {
        Some(ThemeColor::DarkRed)
    } else if name == String::from_str("darkgreen") {
        Some(ThemeColor::DarkGreen)
    } else if name == String::from_str("darkyellow") {
        Some(ThemeColor::DarkYellow)
    } else if name == String::from_str("darkblue") {
        Some(ThemeColor::DarkBlue)
    } else if name == String::from_str("darkmagenta") {
        Some(ThemeColor::DarkMagenta)
    } else if name == String::from_str("darkcyan") {
        Some(ThemeColor::DarkCyan)
    } else {
        None
    }
}

/// Whether a best was achieved in a metric whose notification is switched
/// on.
pub fn relevant_pb_achieved(pb: &PBInfo, settings: &PbNotificationConfig) -> (r: bool)
    ensures
        r == spec_relevant_pb_achieved(*pb, *settings),
{
    (pb.weight.achieved && settings.notify_weight) || (pb.reps.achieved && settings.notify_reps)
        || (pb.duration.achieved && settings.notify_duration) || (pb.distance.achieved
        && settings.notify_distance)
}

/// Decides what to do about the bests of a workout just logged. Nothing is
/// said unless a best was achieved in a metric that is switched on; then the
/// global switch decides, and where it was never set the athlete is asked.
pub fn plan_pb_notice(pb: &PBInfo, settings: &PbNotificationConfig) -> (r: PbNotice)
    ensures
        r == spec_pb_notice(*pb, *settings),
{
    if !relevant_pb_achieved(pb, settings) {
        PbNotice::Nothing
    } else {
        match settings.enabled {
            Some(true) => PbNotice::Show,
            Some(false) => PbNotice::Nothing,
            None => PbNotice::AskFirst,
        }
    }
}

impl Config {
    /// The settings of a fresh installation: metric units, bodyweight
    /// prompts on, a daily streak, every metric notified and the global
    /// notification switch not yet set.
    pub fn new() -> (r: Config)
        ensures
            r.units == Units::Metric,
            r.prompt_for_bodyweight,
            r.streak_interval_days == 1,
            r.target_bodyweight is None,
            r.pb_notifications == (PbNotificationConfig {
                enabled: None,
                notify_weight: true,
                notify_reps: true,
                notify_duration: true,
                notify_distance: true,
            }),
            r.header_color is None,
    {
        Config {
            units: Units::Metric,
            prompt_for_bodyweight: true,
            streak_interval_days: 1,
            target_bodyweight: None,
            pb_notifications: PbNotificationConfig {
                enabled: None,
                notify_weight: true,
                notify_reps: true,
                notify_duration: true,
                notify_distance: true,
            },
            header_color: None,
        }
    }

    /// The colour for the headers of a table: the one of the settings, or
    /// the table's own where the settings name none.
    pub fn header_color_or(&self, default: ThemeColor) -> (r: ThemeColor)
        ensures
            r == match self.header_color {
                Some(color) => color,
                None => default,
            },
    {
        match self.header_color {
            Some(color) => color,
            None => default,
        }
    }

    /// Sets or clears the colour of table headers.
    pub fn set_header_color(&mut self, color: Option<ThemeColor>)
        ensures
            *final(self) == (Config { header_color: color, ..*old(self) }),
    {
        self.header_color = color;
    }

    /// The global notification switch, or `None` while it was never set.
    /// Reading it changes nothing.
    pub fn check_notification_setting(&self) -> (r: Option<bool>)
        ensures
            r == self.pb_notifications.enabled,
    {
        self.pb_notifications.enabled
    }

    /// Sets the global notification switch.
    pub fn set_notification_setting(&mut self, enabled: bool)
        ensures
            *final(self) == (Config {
                pb_notifications: PbNotificationConfig {
                    enabled: Some(enabled),
                    ..old(self).pb_notifications
                },
                ..*old(self)
            }),
    {
        self.pb_notifications.enabled = Some(enabled);
    }

    /// Sets the unit system.
    pub fn set_units(&mut self, units: Units)
        ensures
            *final(self) == (Config { units, ..*old(self) }),
    {
        self.units = units;
    }

    /// Switches the bodyweight prompt off.
    pub fn disable_bodyweight_prompt(&mut self)
        ensures
            *final(self) == (Config { prompt_for_bodyweight: false, ..*old(self) }),
    {
        self.prompt_for_bodyweight = false;
    }

    /// Sets the streak tolerance. Zero days is refused and leaves the
    /// settings as they were.
    pub fn set_streak_interval(&mut self, days: u32) -> (r: Result<(), TrackerError>)
        ensures
            days >= 1 ==> r is Ok && *final(self) == (Config {
                streak_interval_days: days,
                ..*old(self)
            }),
            days == 0 ==> *final(self) == *old(self) && (
            r matches Err(TrackerError::InvalidInput(text)) && text@
                == "Streak interval must be at least 1 day."@),
    {
        if days >= 1 {
            self.streak_interval_days = days;
            Ok(())
        } else {
            Err(
                TrackerError::InvalidInput(
                    String::from_str("Streak interval must be at least 1 day."),
                ),
            )
        }
    }

    /// Sets or clears the target bodyweight. A target that is not positive
    /// is refused and leaves the settings as they were.
    pub fn set_target_bodyweight(&mut self, target: Option<i64>) -> (r: Result<(), TrackerError>)
        ensures
            (target matches Some(w) && w <= 0) ==> *final(self) == *old(self) && (
            r matches Err(TrackerError::InvalidInput(text)) && text@
                == "Weight must be a positive number."@),
            !(target matches Some(w) && w <= 0) ==> r is Ok && *final(self) == (Config {
                target_bodyweight: target,
                ..*old(self)
            }),
    {
        let refused = match target {
            Some(w) => w <= 0,
            None => false,
        };
        if refused {
            Err(TrackerError::InvalidInput(String::from_str("Weight must be a positive number.")))
        } else {
            self.target_bodyweight = target;
            Ok(())
        }
    }

    /// Switches the notification of weight bests on or off.
    pub fn set_pb_notify_weight(&mut self, enabled: bool)
        ensures
            *final(self) == (Config {
                pb_notifications: PbNotificationConfig {
                    notify_weight: enabled,
                    ..old(self).pb_notifications
                },
                ..*old(self)
            }),
    {
        self.pb_notifications.notify_weight = enabled;
    }

    /// Switches the notification of reps bests on or off.
    pub fn set_pb_notify_reps(&mut self, enabled: bool)
        ensures
            *final(self) == (Config {
                pb_notifications: PbNotificationConfig {
                    notify_reps: enabled,
                    ..old(self).pb_notifications
                },
                ..*old(self)
            }),
    {
        self.pb_notifications.notify_reps = enabled;
    }

    /// Switches the notification of duration bests on or off.
    pub fn set_pb_notify_duration(&mut self, enabled: bool)
        ensures
            *final(self) == (Config {
                pb_notifications: PbNotificationConfig {
                    notify_duration: enabled,
                    ..old(self).pb_notifications
                },
                ..*old(self)
            }),
    {
        self.pb_notifications.notify_duration = enabled;
    }

    /// Switches the notification of distance bests on or off.
    pub fn set_pb_notify_distance(&mut self, enabled: bool)
        ensures
            *final(self) == (Config {
                pb_notifications: PbNotificationConfig {
                    notify_distance: enabled,
                    ..old(self).pb_notifications
                },
                ..*old(self)
            }),
    {
        self.pb_notifications.notify_distance = enabled;
    }
}

} // verus!
