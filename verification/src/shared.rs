//! Values shared across channels: volume settings and artwork references.

use vstd::prelude::*;
use crate::json::{num_char, token_wf};

verus! {

/// The decimal notation of a number, most significant digit first.
pub open spec fn dec_digits(n: nat) -> Seq<u8>
    decreases n,
{
    if n < 10 {
        seq![(0x30 + n) as u8]
    } else {
        dec_digits(n / 10) + seq![(0x30 + n % 10) as u8]
    }
}

proof fn lemma_dec_digits_shape(n: nat)
    ensures
        dec_digits(n).len() >= 1,
        forall|i: int|
            0 <= i < dec_digits(n).len() ==> 0x30 <= #[trigger] dec_digits(n)[i] <= 0x39,
    decreases n,
{
    if n >= 10 {
        lemma_dec_digits_shape(n / 10);
    }
}

/// Appends the decimal notation of `n`.
fn push_digits(n: u32, out: &mut Vec<u8>)
    ensures
        final(out)@ == old(out)@ + dec_digits(n as nat),
    decreases n,
{
    if n < 10 {
        out.push(0x30 + (n as u8));
        proof {
            assert(out@ =~= old(out)@ + dec_digits(n as nat));
        }
    } else {
        push_digits(n / 10, out);
        out.push(0x30 + ((n % 10) as u8));
        proof {
            assert(out@ =~= old(out)@ + dec_digits(n as nat));
        }
    }
}

/// The decimal notation of a number is a plausible number token.
pub proof fn lemma_dec_digits_token_wf(n: nat)
    ensures
        token_wf(dec_digits(n)),
{
    lemma_dec_digits_shape(n);
    assert(forall|i: int|
        0 <= i < dec_digits(n).len() ==> num_char(#[trigger] dec_digits(n)[i]));
}

/// The decimal token of a number.
pub fn dec_token(n: u32) -> (r: Vec<u8>)
    ensures
        r@ == dec_digits(n as nat),
{
    let mut out: Vec<u8> = Vec::new();
    push_digits(n, &mut out);
    proof {
        assert(out@ =~= dec_digits(n as nat));
    }
    out
}

/// A volume level: the literal number token sent on the wire, such as the
/// text `0.350` for a level of 350 thousandths.
#[derive(Clone, Debug)]
pub struct VolumeLevel {
    pub token: Vec<u8>,
}

impl VolumeLevel {
    /// A level token is a plausible JSON number.
    pub open spec fn wf(&self) -> bool {
        token_wf(self.token@)
    }

    /// The token for a level given in thousandths of full volume.
    pub fn from_millis(millis: u32) -> (r: VolumeLevel)
        ensures
            r.token@ == dec_digits((millis / 1000) as nat) + seq![
                0x2eu8,
                (0x30 + (millis / 100) % 10) as u8,
                (0x30 + (millis / 10) % 10) as u8,
                (0x30 + millis % 10) as u8,
            ],
            r.wf(),
    {
        let mut token: Vec<u8> = Vec::new();
        push_digits(millis / 1000, &mut token);
        token.push(0x2e);
        token.push(0x30 + (((millis / 100) % 10) as u8));
        token.push(0x30 + (((millis / 10) % 10) as u8));
        token.push(0x30 + ((millis % 10) as u8));
        proof {
            lemma_dec_digits_shape((millis / 1000) as nat);
            assert(token@ =~= dec_digits((millis / 1000) as nat) + seq![
                0x2eu8,
                (0x30 + (millis / 100) % 10) as u8,
                (0x30 + (millis / 10) % 10) as u8,
                (0x30 + millis % 10) as u8,
            ]);
            assert(forall|i: int| 0 <= i < token@.len() ==> num_char(#[trigger] token@[i]));
        }
        VolumeLevel { token }
    }
}

/// Mathematical image of a [`Volume`].
pub struct VolumeModel {
    pub control_type: Option<Seq<char>>,
    pub muted: Option<bool>,
    pub level: Option<Seq<u8>>,
}

/// A receiver's volume setting. The level keeps its wire notation.
#[derive(Clone, Debug)]
pub struct Volume {
    pub control_type: Option<String>,
    pub muted: Option<bool>,
    pub level: Option<VolumeLevel>,
}

impl View for Volume {
    type V = VolumeModel;

    open spec fn view(&self) -> VolumeModel {
        VolumeModel {
            control_type: match self.control_type {
                Some(ref s) => Some(s@),
                None => None,
            },
            muted: self.muted,
            level: match self.level {
                Some(ref l) => Some(l.token@),
                None => None,
            },
        }
    }
}

impl Volume {
    /// A volume is well formed when its level token is.
    pub open spec fn wf(&self) -> bool {
        self.level matches Some(l) ==> l.wf()
    }
}

/// Mathematical image of an [`Image`].
pub struct ImageModel {
    pub url: Seq<char>,
    pub height: Option<i32>,
    pub width: Option<i32>,
}

/// A reference to artwork a receiver can display.
#[derive(Clone, Debug)]
pub struct Image {
    pub url: String,
    pub height: Option<i32>,
    pub width: Option<i32>,
}

impl View for Image {
    type V = ImageModel;

    open spec fn view(&self) -> ImageModel {
        ImageModel { url: self.url@, height: self.height, width: self.width }
    }
}

} // verus!
