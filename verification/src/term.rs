//! Terminal interface logic: the per-device view's key handling and text,
//! labels and popovers, and the commands run from the interface.

pub mod device_view;
pub mod shell;
pub mod widgets;
