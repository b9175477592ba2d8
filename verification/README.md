# gesture_control

Gesture control for a lane-runner game: two front ends turn tracked motion
into key presses.

- **kinect**: a body sample per frame (horizontal offset, height, time) is
  compared with a calibrated resting baseline and yields jump, crouch and
  lane-change gestures, which are mapped to Space, Ctrl (held) and A / D.
- **webcam**: the share of moving grid cells in four screen zones per frame
  yields taps (left, right, up) and a hold (down), mapped to A, D, W and S.

`src/` is the verified library (Verus): detectors with their calibration,
hysteresis, debounce and cooldown rules; the key senders and the event to
key mapping; the webcam grid, scene-change and direction-gate decisions; the
start screen's state machine; the scripted and manual sources; the command
line of the kinect front end. Quantities are fixed-point integers
(micrometres, microseconds, parts per million of the image); zone ratios
are counted in units of `1 / RATIO_ONE`, a number that every zone's cell
count divides, so that a zone's share of active cells is exact.

`app/` is the program around it: camera capture and image processing
(OpenCV), windows (minifb), console input, Win32 key injection, floating-
point drawing and simulation.
