pub mod volume;
pub mod text;
pub mod mixer;
pub mod settings;
pub mod audio;
pub mod debounce;
pub mod gfx;
pub mod columns;
pub mod buttons;
pub mod icons;
