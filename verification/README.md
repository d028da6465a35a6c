# approx_distinct

The aggregate function `approx_distinct` for DataFusion: an estimate of the number of distinct
values of a column, in bounded memory. The library under `src/` is verified with Verus; what it
asks of Arrow and DataFusion stands behind trusted items, each with a doc comment that says what
is believed.

- Columns of 8-bit and 16-bit integers are counted exactly, by the distinct-count accumulators of
  `datafusion-functions-aggregate-common`.
- Columns of wider integers, dates, times, timestamps, strings and byte strings are fed to a
  HyperLogLog sketch of 16384 registers.
- A column of nulls counts zero.

## Modules

| Module | Content |
| --- | --- |
| `registers` | the mathematical model of a sketch: absorbing hashes, joining sketches |
| `estimate` | the cardinality estimate, in fixed-point arithmetic |
| `hashing` | hashes of values under the shared hash state |
| `hyperloglog` | the sketch |
| `optional` | rows with nulls |
| `arrays` | what is read from Arrow arrays |
| `scalar` | scalar values, and sketches as scalar values |
| `accumulators` | the accumulators that keep a sketch |
| `small_int` | the accumulators that count exactly |
| `accumulator` | the accumulators of all types under one type |
| `schema`, `text` | column types, fields and their text |
| `approx_distinct` | the function: state fields and the choice of an accumulator |
| `laws`, `estimate_laws` | what holds between operations |

`app/` implements DataFusion's traits on top of the library. `tests/` runs the library against
real arrays.
