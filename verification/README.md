# Drum engine core

The integer core of a drum-machine synthesis engine, verified with Verus.

`src/` (crate `lib`):

- `rng` — the xorshift32 step every noise source uses, and the proof that a
  nonzero state never reaches zero.
- `dsp` — white-noise state, noise colour codes, the pink-noise row
  schedule, the click-transient sequencer and the retrigger-declick clock.
- `ac606` — the generators of the 606-style engines.
- `ch606` — hit selection of the multisample voices (random without
  immediate repeat, fixed hit, stereo pairs).
- `sample_bank` — decoding of RIFF/WAVE multisample banks into evenly
  spaced hits of raw sample words.
- `clap`, `perc1` — the clap's burst schedule and the slap-delay ring
  position.
- `ring` — the fixed-storage stream history behind the clap's colour
  filters and resampler.
- `synthesizer` — slot activation and voice gating.
- `drum_voice`, `saturation`, `ac_voice` — voice identities, the
  instrument registry lookup and the byte codes of the saturation types.

`app/` holds the floating-point side (the 606-style engines, noise colours,
sample conversion, saturation curves, declick window) on top of the library.
