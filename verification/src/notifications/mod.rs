//! User-visible notifications: the typed row model and the store that
//! de-duplicates, lists and marks them.
pub mod model;
pub mod service;

pub use model::{Notification, NotificationKind, NotificationSeverity, NotificationsPage};
pub use service::{InMemoryNotificationService, NotificationService};
