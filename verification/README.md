# osaio-proxy

Logs into an osaio account and restreams all of its cameras as separate video and audio streams.

The library under `src/` holds the logic and is verified with Verus:

| module | what it holds |
|---|---|
| `auth` | signatures, requests, replies, the login and the session |
| `ws`, `call`, `ice` | signaling messages, the way to a camera's answer, the servers of a call |
| `sdp` | session descriptions and their compact form |
| `h265`, `stream` | HEVC over RTP into NAL units, and a running stream |
| `camera`, `settings`, `server` | which cameras run, what can be set, what the endpoints answer |
| `backoff` | delays between attempts |
| `json`, `text`, `util`, `config` | JSON values, text, encodings and digests, the configuration |

`app/` is the program around it: connections, processes and files.

## Configuration

`config.toml`, or the file that the first argument names:

```toml
[osaio]
appid = "xxx"
app_secret = "xxx"
user_agent = "xxx"
global_base_url = "https://xxx/v2"

[account]
email = "your-email@example.com"
password = "your-password"

[server]
bind = "0.0.0.0:8080"
```

## Endpoints

| endpoint | description |
|---|---|
| `GET /cameras/info` | all cameras with the addresses of their streams and settings |
| `GET /cameras/<id>/stream/video` | MPEG-TS video stream |
| `GET /cameras/<id>/stream/audio` | raw AAC audio stream |
| `GET /cameras/<id>/settings` | all settings and their values |
| `GET /cameras/<id>/settings/<name>` | one setting |
| `GET /cameras/<id>/settings/<name>/<value>` | change a setting |

The setting `night-vision` takes `off`, `on` and `auto`.
