use vstd::prelude::*;
use vstd::string::StringExecFns;

use crate::entry::EntryModel;
use crate::entry::StoredEntry;
use crate::numfmt::dec_int;
use crate::numfmt::i64_to_dec_string;

verus! {

/// The line printed for one stored entry: the id in brackets, then the date
/// token unless it is hidden, then the time token unless it is hidden, then
/// the content. A hidden field's token is omitted entirely, together with the
/// blank that would have followed it, so each flag removes exactly its own
/// token and the content is present in every case.
pub open spec fn rendered_line(e: EntryModel, hide_time: bool, hide_date: bool) -> Seq<char> {
    seq!['['] + dec_int(e.id) + seq![']', ' '] + (if hide_date {
        Seq::<char>::empty()
    } else {
        e.date + seq![' ']
    }) + (if hide_time {
        Seq::<char>::empty()
    } else {
        e.time + seq![' ']
    }) + e.content
}

/// Render one stored entry as its output line.
pub fn render_entry(entry: &StoredEntry, hide_time: bool, hide_date: bool) -> (r: String)
    ensures
        r@ == rendered_line(entry@, hide_time, hide_date),
{
    let mut out = "[".to_owned();
    let id_str = i64_to_dec_string(entry.id);
    out.append(id_str.as_str());
    out.append("] ");
    if !hide_date {
        out.append(entry.date.as_str());
        out.append(" ");
    }
    if !hide_time {
        out.append(entry.time.as_str());
        out.append(" ");
    }
    out.append(entry.content.as_str());
    proof {
        reveal_strlit("[");
        reveal_strlit("] ");
        reveal_strlit(" ");
        assert(out@ =~= rendered_line(entry@, hide_time, hide_date));
    }
    out
}

/// Render a whole list of stored entries, one line per entry, in order.
pub fn render_entries(entries: &Vec<StoredEntry>, hide_time: bool, hide_date: bool) -> (r: Vec<
    String,
>)
    ensures
        r@.len() == entries@.len(),
        forall|i: int|
            0 <= i < entries@.len() ==> (#[trigger] r@[i])@ == rendered_line(
                entries@[i]@,
                hide_time,
                hide_date,
            ),
{
    let mut out: Vec<String> = Vec::new();
    let mut i: usize = 0;
    while i < entries.len()
        invariant
            i <= entries.len(),
            out@.len() == i,
            forall|j: int|
                0 <= j < i ==> (#[trigger] out@[j])@ == rendered_line(
                    entries@[j]@,
                    hide_time,
                    hide_date,
                ),
        decreases entries.len() - i,
    {
        let line = render_entry(&entries[i], hide_time, hide_date);
        out.push(line);
        i = i + 1;
    }
    out
}

} // verus!
