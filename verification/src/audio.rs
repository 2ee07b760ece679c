//! The sounds of the game.

use vstd::prelude::*;
use crate::utils::random_bool;

verus! {

/// The sounds that can be played.
#[derive(Clone, Copy, Debug, PartialEq, Eq, Structural)]
pub enum AudioLibrary {
    Arrow,
    Cannon,
}

impl Default for AudioLibrary {
    fn default() -> (r: AudioLibrary)
        ensures
            r == AudioLibrary::Arrow,
    {
        AudioLibrary::Arrow
    }
}

impl AudioLibrary {
    /// The file of this sound where a coin has come up `coin`: the bow has
    /// two recordings and the coin picks one, the cannon has one.
    pub fn recording(&self, coin: bool) -> (r: &'static str)
        ensures
            r@ == (match self {
                AudioLibrary::Arrow => if coin {
                    "audio/shoot_bow_01.ogg"@
                } else {
                    "audio/shoot_bow_02.ogg"@
                },
                AudioLibrary::Cannon => "audio/cannon_01.ogg"@,
            }),
    {
        match self {
            AudioLibrary::Arrow => {
                if coin {
                    "audio/shoot_bow_01.ogg"
                } else {
                    "audio/shoot_bow_02.ogg"
                }
            },
            AudioLibrary::Cannon => "audio/cannon_01.ogg",
        }
    }

    /// A file of this sound: for the bow either of its two recordings, at
    /// random.
    pub fn path(&self) -> (r: &'static str)
        ensures
            match self {
                AudioLibrary::Arrow => r@ == "audio/shoot_bow_01.ogg"@ || r@
                    == "audio/shoot_bow_02.ogg"@,
                AudioLibrary::Cannon => r@ == "audio/cannon_01.ogg"@,
            },
    {
        match self {
            AudioLibrary::Arrow => self.recording(random_bool()),
            AudioLibrary::Cannon => self.recording(false),
        }
    }
}

} // verus!
