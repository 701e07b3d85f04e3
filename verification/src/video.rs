//! The notification item: one upstream entry with its identifier, title,
//! parsed duration, and the topic link extracted from its description, and
//! the human-readable message built from them.
use vstd::prelude::*;
use vstd::string::StrSliceExecFns;
use vstd::string::StringExecFns;

use crate::duration::duration_secs_of;
use crate::duration::get_duration;
use crate::link::extracted_link;
use crate::link::get_url;
use crate::text::dec_str;
use crate::text::u64_to_string;

verus! {

/// One upstream content entry. The identifier is never empty once the item
/// is constructed.
#[derive(Debug, PartialEq, Eq, Clone)]
pub struct Video {
    pub title: String,
    pub sudoku_link: String,
    pub duration_secs: u64,
    pub youtube_id: String,
}

/// Quotient and remainder of `t` by `d`.
pub fn divmod(t: u64, d: u64) -> (r: (u64, u64))
    requires
        d != 0,
    ensures
        r.0 as int == t as int / d as int,
        r.1 as int == t as int % d as int,
{
    (t / d, t % d)
}

/// The duration rendered as hours, minutes and seconds joined by colons,
/// no field zero-padded.
pub open spec fn time_str(secs: nat) -> Seq<char> {
    dec_str(secs / 3600) + seq![':'] + dec_str((secs % 3600) / 60) + seq![':'] + dec_str(secs % 60)
}

/// The notification body for an item.
pub open spec fn message_str(v: Video) -> Seq<char> {
    "The latest video "@ + v.title@ + " (https://www.youtube.com/watch?v="@ + v.youtube_id@
        + ") for "@ + v.sudoku_link@ + " took "@ + time_str(v.duration_secs as nat) + "."@
}

impl Video {
    /// Assemble an item from its raw upstream fields: the identifier, the
    /// title, the duration code (malformed codes count as zero seconds),
    /// and the description text, scanned for the first well-formed URL.
    pub fn new(video_id: &str, title: &str, duration_code: &str, description: &str) -> (v: Video)
        requires
            video_id@.len() > 0,
        ensures
            v.youtube_id@ == video_id@,
            v.title@ == title@,
            v.duration_secs as int == duration_secs_of(duration_code@),
            v.sudoku_link@ == extracted_link(description@),
    {
        let duration_secs = get_duration(duration_code);
        let sudoku_link = match get_url(description) {
            None => {
                proof {
                    assert(Seq::<char>::empty() =~= extracted_link(description@));
                }
                String::new()
            },
            Some(link) => link,
        };
        Video { title: title.to_owned(), sudoku_link, duration_secs, youtube_id: video_id.to_owned() }
    }

    /// The duration broken into `H:M:S` by integer division and remainder.
    pub fn time(&self) -> (r: String)
        ensures
            r@ == time_str(self.duration_secs as nat),
    {
        let (hours, rem) = divmod(self.duration_secs, 3600);
        let (minutes, seconds) = divmod(rem, 60);
        proof {
            vstd::arithmetic::div_mod::lemma_mod_mod(self.duration_secs as int, 60, 60);
        }
        let mut r = u64_to_string(hours);
        r.append(":");
        let ms = u64_to_string(minutes);
        r.append(ms.as_str());
        r.append(":");
        let ss = u64_to_string(seconds);
        r.append(ss.as_str());
        proof {
            reveal_strlit(":");
            assert(":"@ =~= seq![':']);
            assert(r@ =~= time_str(self.duration_secs as nat));
        }
        r
    }

    /// The full notification message for this item.
    pub fn message(&self) -> (r: String)
        ensures
            r@ == message_str(*self),
    {
        let mut r = String::from_str("The latest video ");
        r.append(self.title.as_str());
        r.append(" (https://www.youtube.com/watch?v=");
        r.append(self.youtube_id.as_str());
        r.append(") for ");
        r.append(self.sudoku_link.as_str());
        r.append(" took ");
        let t = self.time();
        r.append(t.as_str());
        r.append(".");
        proof {
            assert(r@ =~= message_str(*self));
        }
        r
    }
}

} // verus!
