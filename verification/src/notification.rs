//! The notification router: it checks notifications and turns them into the
//! events that the host publishes.

use vstd::prelude::*;
use vstd::string::*;
use crate::category;
use crate::severity;

verus! {

/// Why a notification was refused.
#[derive(Clone, Copy, Debug, PartialEq, Eq, Structural)]
pub enum NotificationError {
    /// The severity is none of the three levels.
    InvalidSeverity,
    /// The category is none of the four categories.
    InvalidCategory,
    /// The input is not acceptable.
    InvalidInput,
}

impl NotificationError {
    /// The number under which the error is reported to the caller of the
    /// contract.
    pub fn code(&self) -> (code: u32)
        ensures
            code == match *self {
                NotificationError::InvalidSeverity => 1u32,
                NotificationError::InvalidCategory => 2u32,
                NotificationError::InvalidInput => 3u32,
            },
    {
        match self {
            NotificationError::InvalidSeverity => 1,
            NotificationError::InvalidCategory => 2,
            NotificationError::InvalidInput => 3,
        }
    }
}

/// An event of the router.
#[derive(Debug, PartialEq, Eq)]
pub enum NotificationEvent {
    /// A notification: its category, severity, title and message.
    NotificationInfo(String, String, String, String),
}

/// A notification as it could be stored.
#[derive(Debug, PartialEq, Eq)]
pub struct Notification {
    pub category: String,
    pub severity: String,
    pub title: String,
    pub message: String,
    pub timestamp: u64,
}

/// One notification of a batch: its title, message and severity.
#[derive(Debug, PartialEq, Eq)]
pub struct BatchItem {
    pub title: String,
    pub message: String,
    pub severity: String,
}

/// Whether `event` announces the notification with the given parts.
pub open spec fn announces(
    event: NotificationEvent,
    category: Seq<char>,
    severity: Seq<char>,
    title: Seq<char>,
    message: Seq<char>,
) -> bool {
    match event {
        NotificationEvent::NotificationInfo(c, s, t, m) => c@ == category && s@ == severity && t@
            == title && m@ == message,
    }
}

/// Whether every notification of a batch has one of the three severities.
pub open spec fn all_levels(items: Seq<BatchItem>) -> bool {
    forall|i: int| 0 <= i < items.len() ==> severity::is_level(#[trigger] items[i].severity@)
}

/// The notification router. It keeps no state.
pub struct NotificationRouterContract {}

impl NotificationRouterContract {
    /// `InvalidSeverity` unless `name` is one of the three levels.
    pub fn validate_severity(name: &str) -> (result: Result<(), NotificationError>)
        ensures
            result == if severity::is_level(name@) {
                Ok::<(), NotificationError>(())
            } else {
                Err::<(), NotificationError>(NotificationError::InvalidSeverity)
            },
    {
        if severity::is_valid(name) {
            Ok(())
        } else {
            Err(NotificationError::InvalidSeverity)
        }
    }

    /// `InvalidCategory` unless `name` is one of the four categories.
    pub fn validate_category(name: &str) -> (result: Result<(), NotificationError>)
        ensures
            result == if category::is_category(name@) {
                Ok::<(), NotificationError>(())
            } else {
                Err::<(), NotificationError>(NotificationError::InvalidCategory)
            },
    {
        if category::is_valid(name) {
            Ok(())
        } else {
            Err(NotificationError::InvalidCategory)
        }
    }

    /// The event for a notification of the category `category`, once its
    /// severity is checked.
    fn log_event(category: &str, title: &str, message: &str, severity: &str) -> (result: Result<
        NotificationEvent,
        NotificationError,
    >)
        ensures
            match result {
                Ok(event) => severity::is_level(severity@) && announces(
                    event,
                    category@,
                    severity@,
                    title@,
                    message@,
                ),
                Err(reason) => !severity::is_level(severity@) && reason
                    == NotificationError::InvalidSeverity,
            },
    {
        match Self::validate_severity(severity) {
            Ok(()) => {},
            Err(reason) => {
                return Err(reason);
            },
        }
        Ok(
            NotificationEvent::NotificationInfo(
                String::from_str(category),
                String::from_str(severity),
                String::from_str(title),
                String::from_str(message),
            ),
        )
    }

    /// The event for a notification about governance.
    pub fn log_governance_event(title: &str, message: &str, severity: &str) -> (result: Result<
        NotificationEvent,
        NotificationError,
    >)
        ensures
            match result {
                Ok(event) => severity::is_level(severity@) && announces(
                    event,
                    category::GOVERNANCE@,
                    severity@,
                    title@,
                    message@,
                ),
                Err(reason) => !severity::is_level(severity@) && reason
                    == NotificationError::InvalidSeverity,
            },
    {
        Self::log_event(category::GOVERNANCE, title, message, severity)
    }

    /// The event for a notification about the treasury.
    pub fn log_treasury_event(title: &str, message: &str, severity: &str) -> (result: Result<
        NotificationEvent,
        NotificationError,
    >)
        ensures
            match result {
                Ok(event) => severity::is_level(severity@) && announces(
                    event,
                    category::TREASURY@,
                    severity@,
                    title@,
                    message@,
                ),
                Err(reason) => !severity::is_level(severity@) && reason
                    == NotificationError::InvalidSeverity,
            },
    {
        Self::log_event(category::TREASURY, title, message, severity)
    }

    /// The event for a notification about a member.
    pub fn log_member_event(title: &str, message: &str, severity: &str) -> (result: Result<
        NotificationEvent,
        NotificationError,
    >)
        ensures
            match result {
                Ok(event) => severity::is_level(severity@) && announces(
                    event,
                    category::MEMBER@,
                    severity@,
                    title@,
                    message@,
                ),
                Err(reason) => !severity::is_level(severity@) && reason
                    == NotificationError::InvalidSeverity,
            },
    {
        Self::log_event(category::MEMBER, title, message, severity)
    }

    /// The event for a notification about the system.
    pub fn log_system_event(title: &str, message: &str, severity: &str) -> (result: Result<
        NotificationEvent,
        NotificationError,
    >)
        ensures
            match result {
                Ok(event) => severity::is_level(severity@) && announces(
                    event,
                    category::SYSTEM@,
                    severity@,
                    title@,
                    message@,
                ),
                Err(reason) => !severity::is_level(severity@) && reason
                    == NotificationError::InvalidSeverity,
            },
    {
        Self::log_event(category::SYSTEM, title, message, severity)
    }

    /// The events for a batch of notifications of one category, in the
    /// order of the batch. `InvalidCategory` when the category is not one of
    /// the four; otherwise `InvalidSeverity` when a notification of the
    /// batch has a severity that is not one of the three.
    pub fn batch_emit(category: &str, notifications: &Vec<BatchItem>) -> (result: Result<
        Vec<NotificationEvent>,
        NotificationError,
    >)
        ensures
            match result {
                Ok(events) => category::is_category(category@) && all_levels(notifications@)
                    && events@.len() == notifications@.len() && forall|i: int|
                    0 <= i < events@.len() ==> announces(
                        #[trigger] events@[i],
                        category@,
                        notifications@[i].severity@,
                        notifications@[i].title@,
                        notifications@[i].message@,
                    ),
                Err(reason) => reason == (if !category::is_category(category@) {
                    NotificationError::InvalidCategory
                } else {
                    NotificationError::InvalidSeverity
                }) && !(category::is_category(category@) && all_levels(notifications@)),
            },
    {
        match Self::validate_category(category) {
            Ok(()) => {},
            Err(reason) => {
                return Err(reason);
            },
        }
        let mut events: Vec<NotificationEvent> = Vec::new();
        let mut i: usize = 0;
        while i < notifications.len()
            invariant
                i <= notifications@.len(),
                events@.len() == i,
                category::is_category(category@),
                forall|j: int| 0 <= j < i ==> severity::is_level(#[trigger] notifications@[j].severity@),
                forall|j: int|
                    0 <= j < i ==> announces(
                        #[trigger] events@[j],
                        category@,
                        notifications@[j].severity@,
                        notifications@[j].title@,
                        notifications@[j].message@,
                    ),
            decreases notifications@.len() - i,
        {
            let item = &notifications[i];
            match Self::log_event(
                category,
                item.title.as_str(),
                item.message.as_str(),
                item.severity.as_str(),
            ) {
                Ok(event) => {
                    events.push(event);
                },
                Err(reason) => {
                    return Err(reason);
                },
            }
            i += 1;
        }
        Ok(events)
    }
}

} // verus!
