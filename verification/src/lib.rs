//! Control logic of a fan, display and button daemon for a SATA hat.

pub mod binary64;
pub mod button;
pub mod bytes;
pub mod cli;
pub mod config;
pub mod control;
pub mod course;
pub mod cpu_log;
pub mod decision;
pub mod documented;
pub mod drive_log;
pub mod drive_state;
pub mod drives;
pub mod fan;
pub mod fan_log;
pub mod framebuffer;
pub mod ini;
pub mod json;
pub mod number;
pub mod oled;
pub mod order;
pub mod paths;
pub mod pictures;
pub mod pin_map;
pub mod pwm;
pub mod quote;
pub mod reader;
pub mod smart;
pub mod smartctl;
pub mod split;
pub mod stabilizer;
pub mod system;
pub mod temp;
pub mod text;
