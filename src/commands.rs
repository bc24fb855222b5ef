//! The command set used by the demo program. Each command encodes exactly as the
//! `IDMCommand` of the same name.
use vstd::prelude::*;

use crate::idm::{CountdownDuration, IDMColor, IDMCommand, IDMPixel};
use crate::wire::create_png_payload;

verus! {

/// An RGB colour, one byte per channel.
#[derive(Debug, Clone, Copy)]
pub struct Color {
    pub r: u8,
    pub g: u8,
    pub b: u8,
}

/// One cell of the panel's grid and its colour.
#[derive(Debug, Clone, Copy)]
pub struct Pixel {
    pub x: u8,
    pub y: u8,
    pub color: Color,
}

/// A command that the panel understands: the set of `IDMCommand` without animated images.
#[derive(Debug)]
pub enum Command {
    SetPixel(Pixel),
    ImageMode(u8),
    UploadPng(Vec<u8>),
    FullScreenColor(Color),
    ScreenBrightness(u8),
    ScreenOn,
    ScreenOff,
    CountdownStart(CountdownDuration),
    CountdownCancel,
    CountdownPause,
    CountdownResume,
}

/// The `IDMColor` with the same channels.
pub open spec fn color_as_idm(c: Color) -> IDMColor {
    IDMColor { r: c.r, g: c.g, b: c.b }
}

impl Command {
    /// The `IDMCommand` of the same name and arguments.
    pub open spec fn as_idm(&self) -> IDMCommand {
        match self {
            Command::SetPixel(p) => IDMCommand::SetPixel(
                IDMPixel { x: p.x, y: p.y, color: color_as_idm(p.color) },
            ),
            Command::ImageMode(m) => IDMCommand::ImageMode(*m),
            Command::UploadPng(data) => IDMCommand::UploadPng(*data),
            Command::FullScreenColor(c) => IDMCommand::FullScreenColor(color_as_idm(*c)),
            Command::ScreenBrightness(b) => IDMCommand::ScreenBrightness(*b),
            Command::ScreenOn => IDMCommand::ScreenOn,
            Command::ScreenOff => IDMCommand::ScreenOff,
            Command::CountdownStart(d) => IDMCommand::CountdownStart(*d),
            Command::CountdownCancel => IDMCommand::CountdownCancel,
            Command::CountdownPause => IDMCommand::CountdownPause,
            Command::CountdownResume => IDMCommand::CountdownResume,
        }
    }

    /// Encodes the command into the bytes that the panel reads.
    pub fn to_bytes(&self) -> (r: Vec<u8>)
        ensures
            r@ == self.as_idm().wire(),
    {
        match self {
            Command::SetPixel(pixel) => {
                let mut command: Vec<u8> = vec![10, 0, 5, 1, 0];
                command.push(pixel.color.r);
                command.push(pixel.color.g);
                command.push(pixel.color.b);
                command.push(pixel.x);
                command.push(pixel.y);
                assert(command@ =~= self.as_idm().wire());
                command
            },
            Command::ImageMode(mode) => vec![5, 0, 4, 1, *mode],
            Command::UploadPng(data) => create_png_payload(data.as_slice()),
            Command::FullScreenColor(color) => vec![7, 0, 2, 2, color.r, color.g, color.b],
            Command::ScreenBrightness(brightness) => vec![5, 0, 4, 128, *brightness],
            Command::ScreenOn => vec![5, 0, 7, 1, 1],
            Command::ScreenOff => vec![5, 0, 7, 1, 0],
            Command::CountdownStart(duration) => {
                let seconds = duration.as_secs();
                let minutes = ((seconds / 60) % 256) as u8;
                let seconds = (seconds % 60) as u8;
                let mut command: Vec<u8> = vec![7, 0, 8, 128, 1];
                command.push(minutes);
                command.push(seconds);
                assert(command@ =~= self.as_idm().wire());
                command
            },
            Command::CountdownCancel => vec![7, 0, 8, 128, 0, 0, 0],
            Command::CountdownPause => vec![7, 0, 8, 128, 2, 0, 0],
            Command::CountdownResume => vec![7, 0, 8, 128, 3, 0, 0],
        }
    }
}

} // verus!
