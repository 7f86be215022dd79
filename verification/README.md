# rsomics_kpss_test

The KPSS (Kwiatkowski-Phillips-Schmidt-Shin) stationarity test.

- `src/` is the verified library: option parsing (`options`), input checks and
  errors (`error`), lag selection with the exact Schwert bound (`lags`), the
  critical-value table (`table`) and the exact sums of the trend regression
  (`trend`).
- `app/` is the command-line program: it reads the series, does the
  floating-point part of the test (detrending, HAC variance, Hobijn lag
  estimate, p-value interpolation) and prints the result.
