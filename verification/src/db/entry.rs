//! The entry tables: one per feed.
use vstd::prelude::*;
use crate::util::text::{push_char, to_chars};

verus! {

/// `c` with '-' read as '_'.
pub open spec fn underscore(c: char) -> char {
    if c == '-' {
        '_'
    } else {
        c
    }
}

/// The name of the entry table of feed `suuid`: "entry_" and the uuid with
/// each '-' replaced by '_'.
pub open spec fn table_name_of(suuid: Seq<char>) -> Seq<char> {
    "entry_"@ + suuid.map_values(|c: char| underscore(c))
}

/// The name of the entry table of feed `suuid` (see [`table_name_of`]).
pub fn table_name(suuid: &str) -> (r: String)
    ensures
        r@ == table_name_of(suuid@),
{
    let v = to_chars(suuid);
    let mut r = "entry_".to_owned();
    let ghost prefix = "entry_"@;
    let mut i: usize = 0;
    while i < v.len()
        invariant
            v@ == suuid@,
            i <= v@.len(),
            r@ == prefix + v@.take(i as int).map_values(|c: char| underscore(c)),
        decreases v@.len() - i,
    {
        let c = if v[i] == '-' { '_' } else { v[i] };
        push_char(&mut r, c);
        assert(v@.take(i + 1).map_values(|c: char| underscore(c))
            =~= v@.take(i as int).map_values(|c: char| underscore(c)).push(underscore(v@[i as int])));
        i += 1;
    }
    assert(v@.take(i as int) =~= v@);
    r
}

/// A table name never holds '-' after its prefix, so it needs no quoting.
pub proof fn law_table_name_no_hyphen(suuid: Seq<char>)
    ensures
        forall|i: int| 6 <= i < table_name_of(suuid).len() ==> #[trigger] table_name_of(suuid)[i] != '-',
{
    reveal_strlit("entry_");
    assert forall|i: int| 6 <= i < table_name_of(suuid).len() implies #[trigger] table_name_of(suuid)[i] != '-' by {
        assert(table_name_of(suuid)[i] == underscore(suuid[i - 6]));
    }
}

} // verus!
