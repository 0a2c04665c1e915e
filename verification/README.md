# qobine

The verified core of a music player for the terminal, the desktop and the web.

`src/` holds what the player decides and computes, each function with a contract that Verus proves:

* the queue (`tracklist`) and the catalogue (`models`, `qobuz_models`, `mapper`, `html`),
* encrypted streaming (`cmaf`, `crypto`, `segment_fetch`, `flac_source`, `stream_reader`,
  `file_cache`) and sound output (`sink`),
* remote control: sessions of the music service (`connect`, `connect_queue`, `player_connect`) and
  groups of own devices (`disconnect_server`, `disconnect_client`, `player_server`),
* the terminal (`terminal_app`, `overlays`, `new_playlist`, `grid`, `filtered_list`, `full_screen`,
  `now_playing`, `notification`, `image_cache`, `sub_tab`, `keys`), the desktop (`queue_page`, `grid_page`,
  `now_playing_center`) and the web pages (`web`).

Functions whose names start with `law_` state what holds across several of them.

`app/` is ordinary Rust around the library: the servers, the network, files and the screen.
`tests/` runs the library with the crates it calls.
