//! Freshness classification and tray-menu projection for a coffee-bean inventory.
//!
//! An inventory is a list of [`CoffeeBean`] records. [`project`] keeps the
//! records of which something remains, classifies each by its roast date as
//! of a given day and groups them by state; [`build_menu`] lays the groups
//! out as a [`MenuDocument`]; [`menu_action`] says what activating one of its
//! rows asks for.

pub mod bean;
pub mod events;
pub mod filters;
pub mod freshness;
pub mod menu;
pub mod projection;
pub mod quantity;
pub mod sorting;
pub mod text;

pub use bean::{BeanFreshnessInfo, CoffeeBean, FreshnessState, WindowProgress};
pub use events::{menu_action, MenuAction};
pub use freshness::{calculate_freshness, classify};
pub use menu::{build_menu, loading_menu, tray_menu, MenuDocument, MenuEntry, MenuItem, Submenu};
pub use projection::{is_active_record, project, Projection};
pub use quantity::is_positive_quantity;
pub use text::truncate_name;
