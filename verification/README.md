# site_health

The logic of a COSMIC panel applet that watches a list of sites over HTTPS, as a verified Verus
library.

- `src/text.rs`: trimming, comparing and joining texts, decimal numbers.
- `src/domain.rs`: bare domains, and which domains look real.
- `src/site_url.rs`: typed site URLs, parsed with the `url` crate.
- `src/config.rs`: the settings.
- `src/message.rs`: messages and the actions that answer them.
- `src/app.rs`: the applet's state and its update.
- `src/view.rs`: what the panel button and the popup show.
- `src/watch.rs`: the rounds of health checks.
- `src/laws.rs`: laws of the applet as a whole.

`app/` connects the library to the COSMIC runtime and the network.
