//! Audio settings: the mute flag with its on-disk text format, and the
//! circular track selection. Decoding and playing sound is the host's
//! concern; the core owns the state and the format of the persisted flag: a
//! plain text file holding exactly `true` or `false`.

use vstd::prelude::*;
use crate::rng::rand_index;

verus! {

/// The bytes of `true`.
pub open spec fn spec_true_bytes() -> Seq<u8> {
    seq![116u8, 114u8, 117u8, 101u8]
}

/// The bytes of `false`.
pub open spec fn spec_false_bytes() -> Seq<u8> {
    seq![102u8, 97u8, 108u8, 115u8, 101u8]
}

/// Whether the byte is ASCII whitespace.
pub open spec fn spec_is_ws(b: u8) -> bool {
    b == 32 || b == 9 || b == 10 || b == 11 || b == 12 || b == 13
}

/// The byte string without its leading whitespace.
pub open spec fn spec_trim_front(s: Seq<u8>) -> Seq<u8>
    decreases s.len(),
{
    if s.len() > 0 && spec_is_ws(s[0]) {
        spec_trim_front(s.drop_first())
    } else {
        s
    }
}

/// The byte string without its trailing whitespace.
pub open spec fn spec_trim_back(s: Seq<u8>) -> Seq<u8>
    decreases s.len(),
{
    if s.len() > 0 && spec_is_ws(s.last()) {
        spec_trim_back(s.drop_last())
    } else {
        s
    }
}

/// The byte string without surrounding whitespace.
pub open spec fn spec_trimmed(s: Seq<u8>) -> Seq<u8> {
    spec_trim_back(spec_trim_front(s))
}

/// Whether the byte is ASCII whitespace.
fn is_ws(b: u8) -> (r: bool)
    ensures
        r == spec_is_ws(b),
{
    b == 32 || b == 9 || b == 10 || b == 11 || b == 12 || b == 13
}

/// Reads the persisted mute flag: the file's text, surrounding whitespace
/// aside, must be exactly `true`; everything else means not muted.
pub fn parse_mute_flag(content: &Vec<u8>) -> (r: bool)
    ensures
        r == (spec_trimmed(content@) == spec_true_bytes()),
{
    proof {
        assert(content@.subrange(0, content@.len() as int) =~= content@);
    }
    let mut i: usize = 0;
    while i < content.len() && is_ws_at(content, i)
        invariant
            i <= content@.len(),
            spec_trim_front(content@) == spec_trim_front(content@.subrange(
                i as int,
                content@.len() as int,
            )),
        decreases content@.len() - i,
    {
        proof {
            let rest = content@.subrange(i as int, content@.len() as int);
            assert(rest[0] == content@[i as int]);
            assert(rest.drop_first() =~= content@.subrange(i + 1, content@.len() as int));
        }
        i = i + 1;
    }
    proof {
        let rest = content@.subrange(i as int, content@.len() as int);
        if rest.len() > 0 {
            assert(rest[0] == content@[i as int]);
        }
        assert(spec_trim_front(rest) == rest);
    }
    let mut j: usize = content.len();
    while j > i && is_ws_at(content, j - 1)
        invariant
            i <= j <= content@.len(),
            spec_trim_front(content@) == content@.subrange(i as int, content@.len() as int),
            spec_trimmed(content@) == spec_trim_back(content@.subrange(i as int, j as int)),
        decreases j,
    {
        proof {
            let cur = content@.subrange(i as int, j as int);
            assert(cur.last() == content@[j - 1]);
            assert(cur.drop_last() =~= content@.subrange(i as int, j - 1));
        }
        j = j - 1;
    }
    proof {
        let cur = content@.subrange(i as int, j as int);
        if cur.len() > 0 {
            assert(cur.last() == content@[j - 1]);
        }
        assert(spec_trim_back(cur) == cur);
        assert(spec_trimmed(content@) == cur);
    }
    if j - i != 4 {
        proof {
            assert(spec_trimmed(content@).len() != 4);
        }
        return false;
    }
    let r = content[i] == 116 && content[i + 1] == 114 && content[i + 2] == 117 && content[i + 3]
        == 101;
    proof {
        let cur = content@.subrange(i as int, j as int);
        assert(cur[0] == content@[i as int] && cur[1] == content@[i + 1] && cur[2] == content@[i
            + 2] && cur[3] == content@[i + 3]);
        if r {
            assert(cur =~= spec_true_bytes());
        } else {
            assert(cur != spec_true_bytes());
        }
    }
    r
}

/// Whether the byte at `i` is ASCII whitespace.
fn is_ws_at(content: &Vec<u8>, i: usize) -> (r: bool)
    requires
        i < content@.len(),
    ensures
        r == spec_is_ws(content@[i as int]),
{
    is_ws(content[i])
}

/// Writes the mute flag in its on-disk text form: exactly `true` or
/// `false`.
pub fn render_mute_flag(muted: bool) -> (r: Vec<u8>)
    ensures
        muted ==> r@ == spec_true_bytes(),
        !muted ==> r@ == spec_false_bytes(),
{
    if muted {
        let v: Vec<u8> = vec![116u8, 114u8, 117u8, 101u8];
        proof {
            assert(v@ =~= spec_true_bytes());
        }
        v
    } else {
        let v: Vec<u8> = vec![102u8, 97u8, 108u8, 115u8, 101u8];
        proof {
            assert(v@ =~= spec_false_bytes());
        }
        v
    }
}

/// The audio settings: the mute flag and the circular background-track
/// selection.
pub struct AudioSettings {
    /// Whether playback is muted.
    pub muted: bool,
    /// Index of the current background track.
    pub track_index: usize,
    /// How many background tracks are available.
    pub track_count: usize,
}

impl AudioSettings {
    /// Well-formedness: with any track at all, the index points at one.
    pub open spec fn wf(self) -> bool {
        self.track_count > 0 ==> self.track_index < self.track_count
    }

    /// Fresh settings on the first track, with the mute flag as persisted.
    pub fn new(muted: bool, track_count: usize) -> (s: AudioSettings)
        ensures
            s.wf(),
            s.muted == muted,
            s.track_index == 0,
            s.track_count == track_count,
    {
        AudioSettings { muted, track_index: 0, track_count }
    }

    /// Whether playback is muted.
    pub fn is_muted(&self) -> (r: bool)
        ensures
            r == self.muted,
    {
        self.muted
    }

    /// Picks a random track to play; with no track nothing changes.
    pub fn pick_random_track(&mut self)
        requires
            old(self).wf(),
        ensures
            final(self).wf(),
            final(self).muted == old(self).muted,
            final(self).track_count == old(self).track_count,
            old(self).track_count > 0 ==> final(self).track_index < old(self).track_count,
            old(self).track_count == 0 ==> final(self).track_index == old(self).track_index,
    {
        if self.track_count > 0 {
            self.track_index = rand_index(self.track_count);
        }
    }

    /// Flips the mute flag.
    pub fn toggle_mute(&mut self)
        requires
            old(self).wf(),
        ensures
            final(self).wf(),
            final(self).muted == !old(self).muted,
            final(self).track_index == old(self).track_index,
            final(self).track_count == old(self).track_count,
    {
        self.muted = !self.muted;
    }

    /// Steps to the next track, wrapping around past the last; with no
    /// track nothing changes.
    pub fn next_track(&mut self)
        requires
            old(self).wf(),
        ensures
            final(self).wf(),
            final(self).muted == old(self).muted,
            final(self).track_count == old(self).track_count,
            old(self).track_count > 0 ==> final(self).track_index == ((old(self).track_index
                + 1) as int) % (old(self).track_count as int),
            old(self).track_count == 0 ==> final(self).track_index == old(self).track_index,
    {
        if self.track_count > 0 {
            self.track_index = (self.track_index + 1) % self.track_count;
        }
    }

    /// Steps to the previous track, wrapping around before the first; with
    /// no track nothing changes.
    pub fn prev_track(&mut self)
        requires
            old(self).wf(),
        ensures
            final(self).wf(),
            final(self).muted == old(self).muted,
            final(self).track_count == old(self).track_count,
            old(self).track_count > 0 ==> final(self).track_index == (if old(self).track_index
                == 0 {
                old(self).track_count - 1
            } else {
                old(self).track_index - 1
            }),
            old(self).track_count == 0 ==> final(self).track_index == old(self).track_index,
    {
        if self.track_count > 0 {
            if self.track_index == 0 {
                self.track_index = self.track_count - 1;
            } else {
                self.track_index = self.track_index - 1;
            }
        }
    }
}

} // verus!
