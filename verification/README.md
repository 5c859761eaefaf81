# chart_render

Renders a rhythm game chart to a video: the chart is played off screen, its sound track is
mixed, and the frames are piped to ffmpeg.

- `src/` is the planning half, verified with Verus: the settings, the choice of ffmpeg and of
  the encoder, the command lines, the mixing of the track and the course of the frame loop.
- `tests/` runs the library on concrete values.
- `app/` is the program around it: the player, the graphics device, the audio files and the
  ffmpeg processes. It needs the player library `prpr` and the audio library `sasa`, and the
  branch of macroquad that goes with them.

Floating-point settings cross into the library as bit patterns. The mixer takes the arithmetic
on samples as functions, so it can be used with samples of any type.
