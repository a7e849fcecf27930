//! Reading, checking and changing the CPU frequency settings that Linux
//! exposes under sysfs: the verified core of the CPU Tweaks tool.
pub mod text;
pub mod order;
pub mod cpu;
pub mod gui;
