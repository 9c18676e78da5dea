//! Verified core of a dual-processor handheld console: memory maps, DMA,
//! inter-processor communication, cartridge backup, serial devices, sound
//! channels and the two-dimensional display pipeline.

pub mod apu;
pub mod backup;
pub mod bytes;
pub mod cpu;
pub mod gx;
pub mod hle;
pub mod ipc;
pub mod keys;
pub mod maths;
pub mod mmu;
pub mod ppu;
pub mod psg;
pub mod rtc;
pub mod sound_tables;
pub mod spi;
pub mod tcm;
pub mod texture;
pub mod timers;
pub mod user_settings;
pub mod vram;
