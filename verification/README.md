# xteink_x4_os

Firmware logic for the Xteink X4 e-ink reader (ESP32-C3, 800x480 SSD1677
panel), written in Verus and proved against its contracts.

- `src/` is the verified library: the framebuffer and its panel
  transforms, the portrait UI surface, button-ladder decoding, the power
  and sync-session state machines, the kosync exchange decisions, upload
  naming and streaming arithmetic, the reader store's fixed-size catalog,
  table of contents and section buffers, and the text and number helpers
  they share. Calls into `heapless` and a few `str` functions sit behind
  small trusted wrappers in `hstring.rs` and `textutil.rs`.
- `tests/` runs the library on concrete values.
- `app/` is the firmware around it: pins, SPI and DMA, the Embassy tasks,
  the SD card session and the Wi-Fi stack. It performs what the library
  decides.
