//! Compositing and countdown-visualisation engine for a desktop background:
//! date-driven countdown labels and colours, cover-scaling and centre-cropping
//! of a source picture, outlined text and a brightness-adaptive wash.
pub mod colour;
pub mod countdown;
pub mod dates;
pub mod fit;
pub mod frame;
pub mod layout;
pub mod outline;
pub mod overlay;
pub mod decimal;
