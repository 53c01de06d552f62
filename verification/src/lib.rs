//! Control logic of an electronic gas regulator: a brushless motor with Hall
//! sensors, driven over buttons or over the network, and a status LED.

pub mod active_connection;
pub mod angle;
pub mod anim;
pub mod buttons;
pub mod chip;
pub mod constants;
pub mod float32;
pub mod interrupts;
pub mod manual_control;
pub mod messages;
pub mod motor_control;
pub mod motor_quadrature;
pub mod network;
pub mod network_error;
pub mod pwm;
pub mod quadrature_task;
pub mod rgb_led;
pub mod rounding;
pub mod sector;
pub mod time;
pub mod util;
