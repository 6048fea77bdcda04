# netvr

Networked VR: an OpenXR layer reports the devices of every headset to a
server, which shares them, the objects of a common scene and calibration
data with all connected clients.

- `src/` is the verified library (Verus): the message model (`model`, `app`),
  the framing of streams (`framing`), discovery (`discovery`), the server's
  record of clients (`server`), the shared objects on the server
  (`app_server`) and on a client (`local_objects`), merging of remote data
  (`merge`, `devices`, `client`), calibration (`calibration`), dashboard
  requests (`dashboard`), the layer's bookkeeping of OpenXR handles and
  actions (`handles`, `actions`, `loader`, `xr_wrap`, `xr_result`,
  `device_data`) and the device-log parser (`log_parse`).
  Floating-point values are carried as their bit patterns.
- `app/` is the program around it: the QUIC server with its discovery
  responder and web dashboard, a connection check for clients, and the log
  analysis.
- `tests/` exercises the library on concrete values.
