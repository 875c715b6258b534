//! Verified logic of the STM32F3 Discovery exercises: the compass heading
//! and its LEDs, the LED roulette, the timer chase, the USART frames and
//! line echo, and the magnetometer quadrant report.
pub mod compass_direction;
pub mod leds;
pub mod echo;
pub mod roulette;
pub mod timer;
pub mod usart;
pub mod magnetometer;
pub mod accel;
