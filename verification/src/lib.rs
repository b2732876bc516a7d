//! Verified core of the Amlogic control-board tools: frame codecs, EEPROM
//! decoding, GPIO bias lookup and the command-line parsers of the tools.

pub mod text;
pub mod args;
pub mod bytes;
pub mod tally;
pub mod protocol;
pub mod eeprom_antminer;
pub mod gpio;
pub mod pwm;
pub mod tach;
pub mod serial;
pub mod pic;
pub mod hashboard;
pub mod psu_tool;
pub mod pic_tool;
pub mod fan_tool;
pub mod misc_tool;
pub mod bias_tool;
pub mod probe_tool;
pub mod oled_tool;
