//! Backend entry points: one-shot scan and update operations, as the
//! caller's worker invokes them, with string error propagation — the only
//! error surface promised outside this crate.

use crate::scanner::{
    default_false_positives, meta_all_known, scan_fold, total_size, FileScanner, ScanEntry,
};
use crate::store::SignatureStore;
use vstd::arithmetic::div_mod::lemma_div_is_strictly_smaller;
use vstd::prelude::*;

verus! {

/// One digit as a character.
pub open spec fn dec_digit(d: int) -> char {
    if d == 0 {
        '0'
    } else if d == 1 {
        '1'
    } else if d == 2 {
        '2'
    } else if d == 3 {
        '3'
    } else if d == 4 {
        '4'
    } else if d == 5 {
        '5'
    } else if d == 6 {
        '6'
    } else if d == 7 {
        '7'
    } else if d == 8 {
        '8'
    } else {
        '9'
    }
}

/// The decimal rendering of a number, most significant digit first.
pub open spec fn dec_seq(n: nat) -> Seq<char>
    decreases n,
{
    if n < 10 {
        seq![dec_digit(n as int)]
    } else {
        dec_seq(n / 10) + seq![dec_digit((n % 10) as int)]
    }
}

fn digit_str(d: u64) -> (r: &'static str)
    requires
        d < 10,
    ensures
        r@ == seq![dec_digit(d as int)],
{
    let r: &'static str = match d {
        0 => "0",
        1 => "1",
        2 => "2",
        3 => "3",
        4 => "4",
        5 => "5",
        6 => "6",
        7 => "7",
        8 => "8",
        _ => "9",
    };
    proof {
        reveal_strlit("0");
        reveal_strlit("1");
        reveal_strlit("2");
        reveal_strlit("3");
        reveal_strlit("4");
        reveal_strlit("5");
        reveal_strlit("6");
        reveal_strlit("7");
        reveal_strlit("8");
        reveal_strlit("9");
        assert(r@ =~= seq![dec_digit(d as int)]);
    }
    r
}

/// Renders a number in decimal, the serialized form in which an entry
/// count is reported.
pub fn u64_to_string(n: u64) -> (r: String)
    ensures
        r@ == dec_seq(n as nat),
    decreases n,
{
    if n < 10 {
        digit_str(n).to_owned()
    } else {
        proof {
            lemma_div_is_strictly_smaller(n as int, 10);
        }
        let mut r = u64_to_string(n / 10);
        r.append(digit_str(n % 10));
        proof {
            assert(r@ =~= dec_seq((n / 10) as nat) + seq![dec_digit((n % 10) as int)]);
        }
        r
    }
}

/// A removable drive offered as a scan root; supplied by the platform's
/// drive enumeration, consumed here only as a named path.
#[derive(Debug, Clone, PartialEq, Eq)]
pub struct UsbDevice {
    pub name: String,
    pub path: String,
}

impl Default for UsbDevice {
    /// The empty device.
    fn default() -> (d: UsbDevice)
        ensures
            d.name@ == Seq::<char>::empty(),
            d.path@ == Seq::<char>::empty(),
    {
        UsbDevice { name: String::new(), path: String::new() }
    }
}

/// The backend's one-shot operations.
pub struct Utils {}

impl Utils {
    /// Runs one scan job over the snapshot of `scanloc`: builds the
    /// scanner, walks the snapshot, and returns the matched paths, or a
    /// terminal error string.  Obfuscated mode stops at the first match,
    /// because only pass/fail will be shown.
    pub fn start_scanner(
        scanloc: String,
        root_exists: bool,
        entries: &Vec<ScanEntry>,
        store: SignatureStore,
        obfuscated: bool,
        sender: Option<flume::Sender<u32>>,
    ) -> (r: Result<Vec<String>, String>)
        ensures
            !root_exists ==> (r matches Err(m) && m@ == "invalid path"@),
            root_exists ==> ({
                let total = total_size(entries@);
                &&& ((r is Ok) <==> (meta_all_known(entries@) && 0 < total <= u64::MAX))
                &&& (r matches Ok(v) ==> v.deep_view() == scan_fold(
                    store@,
                    default_false_positives(),
                    total,
                    obfuscated,
                    entries@,
                ).matches)
                &&& (!(meta_all_known(entries@) && total <= u64::MAX) ==> (r matches Err(m) && m@
                    == "can't get folder size"@))
                &&& ((meta_all_known(entries@) && total <= u64::MAX && total == 0) ==> (r matches
                    Err(m) && m@ == "calculated folder size is 0"@))
            }),
    {
        let mut scanner = match FileScanner::new(scanloc, root_exists, store, sender) {
            Ok(fs) => fs,
            Err(e) => {
                return Err(e.message());
            },
        };
        match scanner.search_files(entries, obfuscated) {
            Ok(dirty_files) => Ok(dirty_files),
            Err(e) => Err(e.message()),
        }
    }

    /// Runs one store refresh from the fetched feed: on success the new
    /// entry count, serialized in decimal; on failure the store is
    /// unchanged and the error is rendered as a string.
    pub fn update_database(
        store: &mut SignatureStore,
        feed: &Vec<String>,
        timestamp: &str,
        sender: Option<&flume::Sender<u32>>,
    ) -> (r: Result<String, String>)
        ensures
            (r is Ok) <==> (forall|i: int|
                0 <= i < feed.deep_view().len() ==> crate::digest::is_digest(
                    #[trigger] feed.deep_view()[i],
                )),
            r matches Ok(s) ==> {
                &&& final(store).wf()
                &&& final(store)@ == feed.deep_view().to_set()
                &&& final(store).last_refresh_spec() == timestamp@
                &&& s@ == dec_seq(final(store)@.len())
            },
            r is Err ==> *final(store) == *old(store) && (r matches Err(m) && m@
                == "signature store refresh failed: "@ + "malformed digest in feed"@),
    {
        match store.refresh_from_feed(feed, timestamp, sender) {
            Ok(count) => Ok(u64_to_string(count as u64)),
            Err(e) => Err(e.message()),
        }
    }
}

} // verus!
