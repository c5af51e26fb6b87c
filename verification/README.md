# ternary_kalman

Kalman filtering for ternary state spaces with Q16.16 fixed-point arithmetic.

- `src/` is the verified library: `Ternary` (-1, 0, +1 and its integer
  conversions), `FixedPoint` (Q16.16 arithmetic with exact contracts on
  rounding and wrapping, and laws on accuracy) and `TernaryObservation`.
- `app/` holds the floating-point part: `f64` conversions, covariance
  matrices, the Kalman filter, smoothing and sensor fusion.
- `tests/` exercises the library on concrete values.
