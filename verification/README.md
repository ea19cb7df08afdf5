# raster_ui

The chrome of a raster editor as verified state: the dock and its saved layouts,
the workspace that absorbs what its controls ask for, the keyboard, the icons,
and the dialogs that turn a user's choices into requests.

`src/` holds the library. Every type has a model, and every operation says what
it does to the model. The laws that span operations are public proof functions
beside the types they speak of, or in a file of their own: `dock_laws.rs`,
`dialogs/conversions.rs`, `dialogs/fitting.rs`, `dialogs/blending.rs`,
`dialogs/preset_laws.rs`.

Lengths, colours and positions are IEEE 754 numbers. `rounding.rs` defines their
arithmetic (the exact result, rounded once), `ieee.rs` computes it on bit
patterns, and `accuracy.rs` and `closeness.rs` say how far a result can be off.

`app/` draws the library with egui and stores what outlives a session.
`tests/` runs the library on concrete values.
