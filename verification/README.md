# discovery

The logic of the STM32F3 Discovery exercises, verified with Verus.

- `src/` is the verified library: the compass directions and their LEDs
  (`compass_direction`, `leds`), the LED roulette (`roulette`), the TIM6
  prescaler and LED chase (`timer`), the USART transmit frames (`usart`), the
  line echo (`echo`, over a `heapless::Vec`), the magnetometer quadrant report
  (`magnetometer`) and the acceleration report line (`accel`).
- `app/` holds the board programs: peripheral setup, register and pin writes,
  sensor reads and the floating-point heading; they call the library for every
  decision.
- `tests/` runs the library on concrete values.
