# clawdmeter

Firmware for the GeekMagic SmallTV PRO (ESP32, ST7789 240×240 panel) that
polls the Anthropic API once a minute and shows the rate-limit usage it
reports in its response headers.

The decisions of the firmware form a library that is verified with Verus
(`src/`); the program around it (`app/`) drives the SPI bus, Wi-Fi, HTTPS and
storage of the ESP-IDF and carries out what the library plans.

## Library (`src/`)

| Module        | What it holds |
|---------------|---------------|
| `http_date`   | reading the `Date` header (RFC 7231) into a Unix timestamp |
| `calendar`    | the Gregorian calendar and Unix time the date arithmetic is proved against |
| `date_laws`   | a formatted date reads back as its Unix time, later dates read larger, the next second reads one more; fields split at white space are words |
| `poll`        | the main loop: the screen after a poll and the one-minute wait |
| `usage`       | the polling request, the handling of the status and the rate-limit headers |
| `screen`      | the screens as lists of fills and texts: splash, status strip, usage, error |
| `st7789`      | the panel's bus operations: power-up, initialisation, windows, fills, pixels |
| `panel`       | a model of the panel's frame memory; a fill paints what drawing its pixels paints |
| `geometry`    | rectangles, their intersection, RGB565 colours |
| `credentials` | stored Wi-Fi credentials and the driver's fixed-size strings |
| `text`        | white space, decimal numerals, and the standard-library text calls |
| `fixed_vec`   | the fixed-capacity vectors that hold the date's fields |

## Building the firmware

Besides `WIFI_SSID`, `WIFI_PASS` and `ANTHROPIC_TOKEN`, the program reads
`METER_MODEL` (the model that is polled) and `METER_TITLE` (the
heading of the usage screen) from the environment at build time.
