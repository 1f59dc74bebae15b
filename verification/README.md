# bloblib

Motion control for VEX V5 robots (driven through vexide), split in two:

- `src/` is the verified core: the decisions the library makes, on plain
  values, each with a contract proved by Verus.
  - `motion_queue`: the queue of motions a chassis runs one after another
    (requests applied in the order they were made, cancel one, cancel all,
    set up once, tick until done or timed out).
  - `motion_run`: a model of whole runs of the handler, and the law that each
    motion is set up once, ticked only after its set-up, and cleaned up at
    most once.
  - `motion_flags`: the two flags through which directly started motions wait
    for one another and are cancelled.
  - `odometry`: which sensors an odometry update reads, by priority.
  - `encoders`: how a group of encoders reports a reading or an error, and
    which members a reset goes through.
  - `settle`: the latch behind a controller's exit condition, and when it
    fires over a run of updates.
  - `calibration`: the retry policy of IMU calibration.
  - `directions`: turning directions and drive sides.
- `app/` is the rest, ordinary Rust on top of vexide: device I/O, async tasks
  and locks, and the floating-point control loops (PID, odometry, the motion
  controllers, driver control), which call the core for their decisions.
