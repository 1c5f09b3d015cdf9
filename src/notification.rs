use vstd::prelude::*;

verus! {

/// How urgent the pending notifications are.
#[derive(Debug, Clone, Copy, PartialEq, Eq, Structural)]
pub enum NotificationLevel {
    Quiet,
    Debug,
    Info,
    Warning,
    Error,
}

impl NotificationLevel {
    pub open spec fn rank(self) -> u8 {
        match self {
            NotificationLevel::Quiet => 0,
            NotificationLevel::Debug => 1,
            NotificationLevel::Info => 2,
            NotificationLevel::Warning => 3,
            NotificationLevel::Error => 4,
        }
    }

    /// Raises the level to `new_notification_level` when that one is more
    /// urgent.
    pub fn bump_notification_level(&mut self, new_notification_level: NotificationLevel)
        ensures
            *final(self) == (if new_notification_level.rank() > old(self).rank() {
                new_notification_level
            } else {
                *old(self)
            }),
    {
        if new_notification_level.notification_level_as_u8() > self.notification_level_as_u8() {
            *self = new_notification_level;
        }
    }

    pub fn reset(&mut self)
        ensures
            *final(self) == NotificationLevel::Quiet,
    {
        *self = NotificationLevel::Quiet;
    }

    pub fn notification_level_as_u8(&self) -> (r: u8)
        ensures
            r == self.rank(),
    {
        match self {
            NotificationLevel::Quiet => 0,
            NotificationLevel::Debug => 1,
            NotificationLevel::Info => 2,
            NotificationLevel::Warning => 3,
            NotificationLevel::Error => 4,
        }
    }

    /// The level's name, for the status bar.
    pub fn name(&self) -> (r: &'static str)
        ensures
            r@ == match self {
                NotificationLevel::Quiet => "None"@,
                NotificationLevel::Debug => "Debug"@,
                NotificationLevel::Info => "Info"@,
                NotificationLevel::Warning => "Warning"@,
                NotificationLevel::Error => "Error"@,
            },
    {
        match self {
            NotificationLevel::Quiet => "None",
            NotificationLevel::Debug => "Debug",
            NotificationLevel::Info => "Info",
            NotificationLevel::Warning => "Warning",
            NotificationLevel::Error => "Error",
        }
    }
}

} // verus!
