# rtsp_server

An RTSP server library whose decisions are verified with Verus.

- `src/` holds the library: URLs, headers and messages, the state of the server, of its clients, of
  medias and of media factories, and the handling of requests. Everything in it is verified. What has
  to be waited for is not done here: the state machines take what was received, and return what is to
  be told or asked next.
- `app/` is the asynchronous runtime around it: sockets, channels and tasks.
- `tests/` runs the library on concrete values.

A request is handled in stages. Each stage names what has to be asked next, and takes the answer:

1. `client::task` checks the message itself and completes the responses.
2. `client::basic_client` reads the request, looks up the session, the media factory and the stream
   that it is for, and makes the response.
3. `server::context`, `client::context`, `media::context` and `media_factory::context` answer what is
   asked on the way.

What the library takes from other crates stands behind small functions whose contracts are not
proved: `headers`, `url`, `error`, `id`, `text`, `server::session`, `client::task` and
`client::basic_client::describe` have one or more of them.
