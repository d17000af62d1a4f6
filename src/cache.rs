use vstd::prelude::*;
use vstd::string::StringExecFns;

use crate::text::{decimal_of, push_decimal};

verus! {

/// The cache directory of a chain, relative to the cache root: `input/<chain_id>`.
pub open spec fn cache_folder_text(chain_id: u64) -> Seq<char> {
    "input/"@ + decimal_of(chain_id as nat)
}

/// Where the input of a block is cached, relative to the cache root:
/// `input/<chain_id>/<block_number>.bin`.
pub open spec fn cache_path_text(chain_id: u64, block: u64) -> Seq<char> {
    cache_folder_text(chain_id) + "/"@ + decimal_of(block as nat) + ".bin"@
}

/// Where the input of a block is written before it is renamed into place.
pub open spec fn cache_temp_path_text(chain_id: u64, block: u64) -> Seq<char> {
    cache_path_text(chain_id, block) + ".tmp"@
}

/// The cache directory of a chain, relative to the cache root.
pub fn cache_folder(chain_id: u64) -> (r: String)
    ensures
        r@ == cache_folder_text(chain_id),
{
    let mut s = String::from_str("input/");
    push_decimal(&mut s, chain_id);
    s
}

/// The cache file of a block, relative to the cache root.
pub fn cache_path(chain_id: u64, block: u64) -> (r: String)
    ensures
        r@ == cache_path_text(chain_id, block),
{
    let mut s = cache_folder(chain_id);
    s.append("/");
    push_decimal(&mut s, block);
    s.append(".bin");
    s
}

/// The file that a new cache entry is written to before it is renamed to
/// `cache_path(chain_id, block)`.
pub fn cache_temp_path(chain_id: u64, block: u64) -> (r: String)
    ensures
        r@ == cache_temp_path_text(chain_id, block),
{
    let mut s = cache_path(chain_id, block);
    s.append(".tmp");
    s
}

/// The decimal representation of a number never contains a `/` nor a `.`.
proof fn lemma_decimal_chars(n: nat)
    ensures
        forall|i: int| 0 <= i < decimal_of(n).len() ==> '0' <= #[trigger] decimal_of(n)[i] <= '9',
        decimal_of(n).len() >= 1,
    decreases n,
{
    if n >= 10 {
        lemma_decimal_chars(n / 10);
    }
}

/// A cache entry is written under a name of its own, in the directory of the
/// final file, so that renaming it publishes the whole entry at once and an
/// interrupted write never leaves anything at the path that readers open.
pub proof fn lemma_temp_path_is_apart(chain_id: u64, block: u64)
    ensures
        cache_temp_path_text(chain_id, block) != cache_path_text(chain_id, block),
        cache_path_text(chain_id, block).len() < cache_temp_path_text(chain_id, block).len(),
        cache_temp_path_text(chain_id, block).subrange(0, cache_folder_text(chain_id).len() + 1int)
            == cache_folder_text(chain_id) + "/"@,
        cache_path_text(chain_id, block).subrange(0, cache_folder_text(chain_id).len() + 1int)
            == cache_folder_text(chain_id) + "/"@,
{
    reveal_strlit(".tmp");
    reveal_strlit("/");
    let f = cache_folder_text(chain_id);
    let p = cache_path_text(chain_id, block);
    let t = cache_temp_path_text(chain_id, block);
    assert(t.len() == p.len() + 4);
    assert(p.subrange(0, f.len() + 1int) =~= f + "/"@);
    assert(t.subrange(0, f.len() + 1int) =~= f + "/"@);
}

/// Distinct blocks of one chain are cached in distinct files.
pub proof fn lemma_cache_paths_distinct(chain_id: u64, a: u64, b: u64)
    requires
        a != b,
    ensures
        cache_path_text(chain_id, a) != cache_path_text(chain_id, b),
{
    reveal_strlit(".bin");
    reveal_strlit("/");
    let f = cache_folder_text(chain_id) + "/"@;
    let pa = cache_path_text(chain_id, a);
    let pb = cache_path_text(chain_id, b);
    if pa == pb {
        assert(pa =~= f + (decimal_of(a as nat) + ".bin"@));
        assert(pb =~= f + (decimal_of(b as nat) + ".bin"@));
        assert(pa.subrange(f.len() as int, pa.len() as int) =~= decimal_of(a as nat) + ".bin"@);
        assert(pb.subrange(f.len() as int, pb.len() as int) =~= decimal_of(b as nat) + ".bin"@);
        let da = decimal_of(a as nat);
        let db = decimal_of(b as nat);
        assert(da.len() == db.len());
        assert(da =~= (da + ".bin"@).subrange(0, da.len() as int));
        assert(db =~= (db + ".bin"@).subrange(0, db.len() as int));
        lemma_decimal_injective(a as nat, b as nat);
    }
}

/// Different numbers have different decimal representations.
pub proof fn lemma_decimal_injective(a: nat, b: nat)
    requires
        decimal_of(a) == decimal_of(b),
    ensures
        a == b,
    decreases a + b,
{
    lemma_decimal_chars(a);
    lemma_decimal_chars(b);
    let da = decimal_of(a);
    let db = decimal_of(b);
    if a < 10 && b < 10 {
        assert(da[0] == db[0]);
    } else if a >= 10 && b >= 10 {
        let pa = decimal_of(a / 10);
        let pb = decimal_of(b / 10);
        assert(da.len() == db.len());
        assert(da.last() == db.last());
        assert(pa =~= da.drop_last());
        assert(pb =~= db.drop_last());
        lemma_decimal_injective(a / 10, b / 10);
    } else if a < 10 {
        lemma_decimal_chars(b / 10);
        assert(da.len() == 1);
        assert(db.len() >= 2);
    } else {
        lemma_decimal_chars(a / 10);
        assert(db.len() == 1);
        assert(da.len() >= 2);
    }
}

} // verus!
