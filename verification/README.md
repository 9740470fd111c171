# libvmod-lambda

A Varnish VMOD that lets Varnish invoke AWS Lambda functions as if they were backends, with its
logic verified by Verus.

## Layout

- `src/` is the verified library: what a backend decides, counts and says.
  - `request`, `headers`, `string_map`: turning a backend request into the request that a function
    is invoked with
  - `invocation`: what goes into an invocation, what comes out, how failures are told apart
  - `http_response`, `framing`: reading the response out of what a function returned, and what is
    read back of a response that was written
  - `body`: handing the response body out piece by piece
  - `fetch`, `stats`: the steps of a backend request and the counters they move
  - `exchange`: the course of a backend request, from event to action
  - `health`, `probe`, `listing`: health probes, their history, and how they are shown
  - `backend`: backends as VCL sees them
  - `aws_client`, `aws_client_pool`: how clients are configured, and which client of a pool is used
  - `text`, `numbers`, `base64_format`: text, decimal numbers, and Base64
  - `outside`: what is taken for granted of the standard library, `base64`, `bytes` and `url`
- `app/` ties the library to Varnish, to the AWS SDK and to a Tokio runtime.
- `tests/` holds the tests of the library.

## Laws

Functions named `law_..` state what holds of several functions together or of every state: that a
raw response is read back as it was written, that reads hand out a body in order, that every backend
request is accounted for, that a pool counts the clients it has handed out, and more.
