//! The comment field of an account entry, split into its conventional
//! comma-separated parts.

use vstd::prelude::*;

verus! {

/// One account's descriptive fields, each optional.
pub struct Gecos {
    pub full_name: Option<String>,
    pub room_number: Option<String>,
    pub work_phone: Option<String>,
    pub home_phone: Option<String>,
    pub other: Option<String>,
}

/// `s` with every comma removed.  A comma inside a field would shift the
/// later fields, so it may not survive into the rendered string.
pub open spec fn strip_commas(s: Seq<char>) -> Seq<char>
    decreases s.len(),
{
    if s.len() == 0 {
        Seq::empty()
    } else if s.last() == ',' {
        strip_commas(s.drop_last())
    } else {
        strip_commas(s.drop_last()).push(s.last())
    }
}

/// How one optional field appears in the rendered string: absent fields
/// appear empty, present fields appear with commas removed.
pub open spec fn field_text(f: Option<String>) -> Seq<char> {
    match f {
        Some(s) => strip_commas(s@),
        None => Seq::empty(),
    }
}

impl Gecos {
    /// The rendered string: the five fields, sanitized, joined by commas.
    pub open spec fn rendered(self) -> Seq<char> {
        field_text(self.full_name) + seq![','] + field_text(self.room_number) + seq![',']
            + field_text(self.work_phone) + seq![','] + field_text(self.home_phone) + seq![',']
            + field_text(self.other)
    }

    /// Renders the five fields as the conventional comma-separated string.
    pub fn to_gecos_string(&self) -> (r: String)
        ensures
            r@ == self.rendered(),
    {
        let mut out = sanitized(&self.full_name);
        push_comma(&mut out);
        let room = sanitized(&self.room_number);
        out.append(room.as_str());
        push_comma(&mut out);
        let work = sanitized(&self.work_phone);
        out.append(work.as_str());
        push_comma(&mut out);
        let home = sanitized(&self.home_phone);
        out.append(home.as_str());
        push_comma(&mut out);
        let other = sanitized(&self.other);
        out.append(other.as_str());
        out
    }
}

/// Appends a single comma.
fn push_comma(out: &mut String)
    ensures
        final(out)@ == old(out)@ + seq![','],
{
    proof {
        reveal_strlit(",");
    }
    out.append(",");
}

/// The sanitized text of one optional field.
fn sanitized(f: &Option<String>) -> (r: String)
    ensures
        r@ == field_text(*f),
{
    match f {
        Some(s) => strip_commas_exec(s.as_str()),
        None => String::new(),
    }
}

/// Removes every comma from `s`.
fn strip_commas_exec(s: &str) -> (r: String)
    ensures
        r@ == strip_commas(s@),
{
    let mut out = String::new();
    let len = s.unicode_len();
    let mut i: usize = 0;
    while i < len
        invariant
            i <= len,
            len == s@.len(),
            out@ == strip_commas(s@.subrange(0, i as int)),
        decreases len - i,
    {
        let c = s.get_char(i);
        if !(c == ',') {
            let piece = s.substring_char(i, i + 1);
            out.append(piece);
        }
        proof {
            let pre = s@.subrange(0, i + 1);
            assert(pre.drop_last() =~= s@.subrange(0, i as int));
            assert(pre.last() == s@[i as int]);
            if s@[i as int] != ',' {
                assert(s@.subrange(i as int, i + 1) =~= seq![s@[i as int]]);
                assert(out@ =~= strip_commas(pre));
            }
        }
        i = i + 1;
    }
    proof {
        assert(s@.subrange(0, len as int) =~= s@);
    }
    out
}

} // verus!
