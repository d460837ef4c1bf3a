# inheritx_metrics

Request metrics of the InheritX backend, verified with Verus.

- `src/labels.rs`: the label values of the per-route latency histogram
  (route label, decimal status label) and the laws about them.
- `src/lifecycle.rs`: what the latency middleware decides around one request
  (gauge steps and labels), and the laws on the in-flight gauge.
- `src/exposition.rs`: the reply of the `/metrics` endpoint, built from
  `prometheus::gather` and the text encoder.
- `app/`: the metric statics, the axum handler and middleware, the database
  pool gauges and `main`.
