# minute_forecast

Trains an LSTM or a GRU model on a stock's minute bars and forecasts the next
trading day, minute by minute.

    minute_forecast [ticker] [model_type]

`ticker` defaults to AAPL, `model_type` (`lstm` or `gru`) to `lstm`.

## Layout

- `src/` is the verified library. It makes the program's decisions:
  - `request`: the command line and the names of model files;
  - `loading`: which market data is read, and the stages of reading it;
  - `frame`: what the library knows of polars data frames;
  - `double`, `share`, `ratio`: doubles by their bits, and the parts of a number of
    rows that double-precision arithmetic computes;
  - `split`: the rows to train on and the rows to test or validate with;
  - `features`: feature selection;
  - `preparation`: the steps by which data is prepared, and their parameters;
  - `workflow`: work in stages, and what holds of every run;
  - `training`, `prediction`, `session`: the stages of providing a model, of a
    forecast and of a whole session;
  - `schedule`, `text`: forecasts and comparisons as text.
- `tests/` runs the library.
- `app/` is the program around it. The stages themselves (reading data, tensors,
  models) are reached through the trait `Stages`; `Unlinked` is the program
  without them.

Every stage is carried out by the program, which reports the outcome and is told
by the library what comes next. The trusted items are the declarations and
wrappers in `frame.rs` and the two case conversions in `request.rs`.
