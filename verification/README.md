# eml_renderer

A service that renders e-mail messages as pictures. Messages come in over HTTP and
wait in a bounded queue; a worker opens them one after the other in the mail app of
Windows, captures what it shows from top to bottom, and hands the captures back.
Subscribers to a web socket see how far each task has come.

`src/` is the library, verified with Verus:

- `eml_task`: the task queue and the record of the tasks that left it;
  `queue_laws`: what holds of it however it is used.
- `worker_thread`: the steps of a worker; `mail_windows`: which processes to end to
  close the existing windows; `screenshot`: which parts of the window to capture
  after which scrolls; `screenshot_laws`: that the captures tile the document;
  `viewport_scroller`: the channel on which the end of a scroll is awaited.
- `render_request`: the steps of a request; `live_queue`: those of a subscriber's
  socket.
- `picture`: captures, the picture in which they stand below one another, and its
  JPEG.
- `channels`, `clock`, `task_id`: what is taken from tokio, chrono and nanoid.

`app/` is the program around it: the server, the shared state and its locks, and the
automation of the desktop. `tests/` holds the library's tests.
