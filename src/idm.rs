//! The command set of the panel and its encoding into frames.
use vstd::prelude::*;

use crate::wire::{animated_frame, crc32_of, create_gif_payload, create_png_payload, still_frame};

verus! {

/// An RGB colour, one byte per channel.
#[derive(Debug, Clone, Copy)]
pub struct IDMColor {
    pub r: u8,
    pub g: u8,
    pub b: u8,
}

/// One cell of the panel's grid and its colour.
#[derive(Debug, Clone, Copy)]
pub struct IDMPixel {
    pub x: u8,
    pub y: u8,
    pub color: IDMColor,
}

/// Length of a countdown, in whole seconds.
#[derive(Debug, Clone, Copy)]
pub struct CountdownDuration {
    pub secs: u64,
}

impl CountdownDuration {
    pub fn from_secs(secs: u64) -> (r: CountdownDuration)
        ensures
            r.secs == secs,
    {
        CountdownDuration { secs }
    }

    pub fn as_secs(&self) -> (r: u64)
        ensures
            r == self.secs,
    {
        self.secs
    }
}

/// Minutes field of a countdown frame: whole minutes, kept to one byte.
pub open spec fn countdown_minutes(d: CountdownDuration) -> u8 {
    ((d.secs / 60) % 256) as u8
}

/// Seconds field of a countdown frame: the seconds past the whole minutes.
pub open spec fn countdown_seconds(d: CountdownDuration) -> u8 {
    (d.secs % 60) as u8
}

/// A command that the panel understands.
#[derive(Debug)]
pub enum IDMCommand {
    SetPixel(IDMPixel),
    ImageMode(u8),
    UploadPng(Vec<u8>),
    UploadGif(Vec<u8>),
    FullScreenColor(IDMColor),
    ScreenBrightness(u8),
    ScreenOn,
    ScreenOff,
    CountdownStart(CountdownDuration),
    CountdownCancel,
    CountdownPause,
    CountdownResume,
}

impl IDMCommand {
    /// The frame that encodes this command.
    pub open spec fn wire(&self) -> Seq<u8> {
        match self {
            IDMCommand::SetPixel(p) => seq![10u8, 0, 5, 1, 0, p.color.r, p.color.g, p.color.b, p.x, p.y],
            IDMCommand::ImageMode(m) => seq![5u8, 0, 4, 1, *m],
            IDMCommand::UploadPng(data) => still_frame(data@),
            IDMCommand::UploadGif(data) => animated_frame(data@, crc32_of(data@)),
            IDMCommand::FullScreenColor(c) => seq![7u8, 0, 2, 2, c.r, c.g, c.b],
            IDMCommand::ScreenBrightness(b) => seq![5u8, 0, 4, 128, *b],
            IDMCommand::ScreenOn => seq![5u8, 0, 7, 1, 1],
            IDMCommand::ScreenOff => seq![5u8, 0, 7, 1, 0],
            IDMCommand::CountdownStart(d) => seq![
                7u8,
                0,
                8,
                128,
                1,
                countdown_minutes(*d),
                countdown_seconds(*d),
            ],
            IDMCommand::CountdownCancel => seq![7u8, 0, 8, 128, 0, 0, 0],
            IDMCommand::CountdownPause => seq![7u8, 0, 8, 128, 2, 0, 0],
            IDMCommand::CountdownResume => seq![7u8, 0, 8, 128, 3, 0, 0],
        }
    }

    /// Encodes the command into the bytes that the panel reads.
    pub fn to_bytes(&self) -> (r: Vec<u8>)
        ensures
            r@ == self.wire(),
    {
        match self {
            IDMCommand::SetPixel(pixel) => vec![
                10,
                0,
                5,
                1,
                0,
                pixel.color.r,
                pixel.color.g,
                pixel.color.b,
                pixel.x,
                pixel.y,
            ],
            IDMCommand::ImageMode(mode) => vec![5, 0, 4, 1, *mode],
            IDMCommand::UploadPng(data) => create_png_payload(data.as_slice()),
            IDMCommand::UploadGif(data) => create_gif_payload(data.as_slice()),
            IDMCommand::FullScreenColor(color) => vec![7, 0, 2, 2, color.r, color.g, color.b],
            IDMCommand::ScreenBrightness(brightness) => vec![5, 0, 4, 128, *brightness],
            IDMCommand::ScreenOn => vec![5, 0, 7, 1, 1],
            IDMCommand::ScreenOff => vec![5, 0, 7, 1, 0],
            IDMCommand::CountdownStart(duration) => {
                let seconds = duration.as_secs();
                let minutes = ((seconds / 60) % 256) as u8;
                let seconds = (seconds % 60) as u8;
                vec![7, 0, 8, 128, 1, minutes, seconds]
            },
            IDMCommand::CountdownCancel => vec![7, 0, 8, 128, 0, 0, 0],
            IDMCommand::CountdownPause => vec![7, 0, 8, 128, 2, 0, 0],
            IDMCommand::CountdownResume => vec![7, 0, 8, 128, 3, 0, 0],
        }
    }
}

/// Encoding depends on the command alone: equal commands, or one command encoded twice,
/// give byte-identical frames.
pub proof fn lemma_encoding_is_deterministic(a: IDMCommand, b: IDMCommand)
    requires
        a == b,
    ensures
        a.wire() == b.wire(),
{
}

/// Uploading an empty image, still or animated, gives an empty frame: no block is sent.
pub proof fn lemma_empty_upload_is_empty_frame(data: Vec<u8>)
    requires
        data@.len() == 0,
    ensures
        IDMCommand::UploadPng(data).wire() == Seq::<u8>::empty(),
        IDMCommand::UploadGif(data).wire() == Seq::<u8>::empty(),
{
    assert(crate::wire::block_count(0) == 0);
}

} // verus!
