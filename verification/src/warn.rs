//! The guest warning: decides whether the account invoking a desktop
//! session is a guest, and with which text it should be warned that its
//! data is disposable.

use vstd::prelude::*;
use crate::config::Config;
use crate::store::Store;

verus! {

/// The content of the warning notification shown to a guest.
pub struct WarningNotification {
    pub app_name: String,
    pub title: String,
    pub body: String,
}

/// Decides whether the calling account is a stored guest and, if so,
/// hands back the configured warning to show it.
pub fn guest_warning_notification(store: &Store, config: &Config, current_uid: u32) -> (r: Option<
    WarningNotification,
>)
    ensures
        match r {
            Some(n) => store.has_user_id(current_uid as int) && n.app_name@
                == config.guest_user_warning_app_name@ && n.title@
                == config.guest_user_warning_title@ && n.body@ == config.guest_user_warning_body@,
            None => !store.has_user_id(current_uid as int),
        },
{
    match store.find_user_by_id(current_uid as i64) {
        Some(_) => Some(
            WarningNotification {
                app_name: config.guest_user_warning_app_name.clone(),
                title: config.guest_user_warning_title.clone(),
                body: config.guest_user_warning_body.clone(),
            },
        ),
        None => None,
    }
}

} // verus!
