# shanan_cv

Post-processing of YOLO detection heads, written in Verus.

A head gets a prediction `[N, 4 + classes, S]` and gives, for every spot of every
image whose score exceeds a threshold, a score `[N, S]`, a class `[N, S]` and the
corners of a box `[N, 4, S]`.

- `src/` is the library. `postprocess::detection` holds the head: its settings and
  its run (`yolo26_bc`), the choice of a class (`candidate`), the grid of cells
  (`grid`), the launch on a device (`launch`) and the writing of the outputs
  (`emission`). `data` holds tensors, `scalar` the numbers in them.
- `app/` runs a head on a `cubecl` device. The floating-point arithmetic, a logistic
  function and the corners before they are cut at the border of the image, is a
  kernel there.
- `tests/` runs the library, with that arithmetic done on the host.

```rust
let head = Yolo26BcConfig::default().with_shape(640, 640).with_dim(256).build()?;
let (score, class, bbox) = head.execute(&pred, threshold, |request| decode(request))?;
```
