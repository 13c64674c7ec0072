use vstd::prelude::*;
use crate::naming::file_name_text;

verus! {

/// The name of the archive that bundles a session's files.
pub const ARCHIVE_NAME: &'static str = "bundle.zip";

/// Whether a file name names an archive (ends in `.zip`).
pub open spec fn is_archive_name(name: Seq<char>) -> bool {
    name.len() >= 4 && name.subrange(name.len() - 4, name.len() as int) == seq!['.', 'z', 'i', 'p']
}

/// The files of a directory listing that go into the archive, in order.
pub open spec fn archived(listing: Seq<Seq<char>>) -> Seq<Seq<char>>
    decreases listing.len(),
{
    if listing.len() == 0 {
        seq![]
    } else {
        let rest = archived(listing.drop_last());
        if is_archive_name(listing.last()) {
            rest
        } else {
            rest.push(listing.last())
        }
    }
}

/// Whether `name` ends in `.zip`.
pub fn is_archive_file(name: &str) -> (r: bool)
    ensures
        r == is_archive_name(name@),
{
    let n = name.unicode_len();
    if n < 4 {
        return false;
    }
    let tail = name.substring_char(n - 4, n);
    proof {
        reveal_strlit(".zip");
    }
    let suffix = ".zip";
    let same = tail.get_char(0) == suffix.get_char(0) && tail.get_char(1) == suffix.get_char(1)
        && tail.get_char(2) == suffix.get_char(2) && tail.get_char(3) == suffix.get_char(3);
    if same {
        assert(tail@ =~= seq!['.', 'z', 'i', 'p']);
    } else {
        assert(tail@ != seq!['.', 'z', 'i', 'p']);
    }
    same
}

/// The entries of the session archive: every file of the session directory
/// that is not itself an archive, in listing order.
pub fn archive_entries(listing: &Vec<String>) -> (r: Vec<String>)
    ensures
        r.deep_view() == archived(listing.deep_view()),
{
    let ghost all = listing.deep_view();
    let mut out: Vec<String> = Vec::new();
    let mut i: usize = 0;
    while i < listing.len()
        invariant
            i <= listing.len(),
            all == listing.deep_view(),
            out.deep_view() == archived(all.subrange(0, i as int)),
        decreases listing.len() - i,
    {
        proof {
            assert(all.subrange(0, i + 1).drop_last() =~= all.subrange(0, i as int));
        }
        if !is_archive_file(listing[i].as_str()) {
            out.push(listing[i].clone());
        }
        assert(out.deep_view() =~= archived(all.subrange(0, i + 1)));
        i = i + 1;
    }
    assert(all.subrange(0, listing.len() as int) =~= all);
    out
}

proof fn lemma_archived_members(listing: Seq<Seq<char>>, name: Seq<char>)
    ensures
        archived(listing).contains(name) <==> (listing.contains(name) && !is_archive_name(name)),
    decreases listing.len(),
{
    if listing.len() > 0 {
        let init = listing.drop_last();
        let last = listing.last();
        lemma_archived_members(init, name);
        assert(listing =~= init.push(last));
        if init.contains(name) {
            let k = choose|k: int| 0 <= k < init.len() && init[k] == name;
            assert(listing[k] == name);
        }
        if listing.contains(name) && name != last {
            let k = choose|k: int| 0 <= k < listing.len() && listing[k] == name;
            assert(init[k] == name);
        }
        let rest = archived(init);
        if !is_archive_name(last) {
            assert(rest.push(last)[rest.len() as int] == last);
            if rest.contains(name) {
                let k = choose|k: int| 0 <= k < rest.len() && rest[k] == name;
                assert(rest.push(last)[k] == name);
            }
            if rest.push(last).contains(name) && name != last {
                let k = choose|k: int| 0 <= k < rest.len() + 1 && rest.push(last)[k] == name;
                assert(rest[k] == name);
            }
        }
    }
}

proof fn lemma_session_file_is_no_archive(timestamp: Seq<char>, ordinal: nat, source: Seq<char>)
    ensures
        !is_archive_name(file_name_text(timestamp, ordinal, source)),
{
    let f = file_name_text(timestamp, ordinal, source);
    assert(f[f.len() - 3] == 'w');
    assert(f.subrange(f.len() - 4, f.len() as int)[1] == 'w');
}

/// Whether `name` is the file of one of the session's bindings.
pub open spec fn is_session_file(
    timestamp: Seq<char>,
    sources: Seq<Seq<char>>,
    name: Seq<char>,
) -> bool {
    exists|i: int| 0 <= i < sources.len() && name == file_name_text(timestamp, i as nat, sources[i])
}

/// When the session directory holds the file of every binding and, besides
/// them, only archives, the archive receives exactly the binding files: each
/// of them, and nothing else (no archive within the archive).
pub proof fn archive_holds_exactly_session_files(
    timestamp: Seq<char>,
    sources: Seq<Seq<char>>,
    listing: Seq<Seq<char>>,
)
    requires
        forall|i: int|
            0 <= i < sources.len() ==> listing.contains(
                #[trigger] file_name_text(timestamp, i as nat, sources[i]),
            ),
        forall|k: int|
            0 <= k < listing.len() ==> is_archive_name(#[trigger] listing[k]) || is_session_file(
                timestamp,
                sources,
                listing[k],
            ),
    ensures
        forall|i: int|
            0 <= i < sources.len() ==> archived(listing).contains(
                #[trigger] file_name_text(timestamp, i as nat, sources[i]),
            ),
        forall|name: Seq<char>|
            #[trigger] archived(listing).contains(name) ==> is_session_file(
                timestamp,
                sources,
                name,
            ),
{
    assert forall|i: int| 0 <= i < sources.len() implies archived(listing).contains(
        #[trigger] file_name_text(timestamp, i as nat, sources[i]),
    ) by {
        let f = file_name_text(timestamp, i as nat, sources[i]);
        lemma_session_file_is_no_archive(timestamp, i as nat, sources[i]);
        lemma_archived_members(listing, f);
    }
    assert forall|name: Seq<char>| #[trigger] archived(listing).contains(name) implies is_session_file(
        timestamp,
        sources,
        name,
    ) by {
        lemma_archived_members(listing, name);
        let k = choose|k: int| 0 <= k < listing.len() && listing[k] == name;
        assert(is_archive_name(listing[k]) || is_session_file(timestamp, sources, listing[k]));
    }
}

} // verus!
