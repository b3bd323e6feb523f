//! Shard paths: where a package's metadata file lives inside the index
//! checkout, determined by the package name's length to bound per-directory
//! fan-out.
use vstd::prelude::*;
use crate::bytes::push_all;

verus! {

/// The documented shard-path table.  Names of length one and two live under
/// `1/` and `2/`; length three under `3/<first char>/`; longer names under
/// `<first 2 chars>/<chars 3-4>/`.
pub open spec fn shard_path_spec(name: Seq<u8>) -> Seq<u8>
    recommends
        name.len() >= 1,
{
    if name.len() == 1 {
        seq![49u8, 47u8] + name
    } else if name.len() == 2 {
        seq![50u8, 47u8] + name
    } else if name.len() == 3 {
        seq![51u8, 47u8, name[0], 47u8] + name
    } else {
        name.take(2) + seq![47u8] + name.subrange(2, 4) + seq![47u8] + name
    }
}

/// Compute the shard path of a package name, relative to the checkout root.
pub fn shard_path(name: &[u8]) -> (r: Vec<u8>)
    requires
        name@.len() >= 1,
    ensures
        r@ == shard_path_spec(name@),
{
    let mut out: Vec<u8> = Vec::new();
    if name.len() == 1 {
        out.push(49);
        out.push(47);
        push_all(&mut out, name);
        assert(out@ =~= shard_path_spec(name@));
    } else if name.len() == 2 {
        out.push(50);
        out.push(47);
        push_all(&mut out, name);
        assert(out@ =~= shard_path_spec(name@));
    } else if name.len() == 3 {
        out.push(51);
        out.push(47);
        out.push(name[0]);
        out.push(47);
        push_all(&mut out, name);
        assert(out@ =~= shard_path_spec(name@));
    } else {
        out.push(name[0]);
        out.push(name[1]);
        out.push(47);
        out.push(name[2]);
        out.push(name[3]);
        out.push(47);
        push_all(&mut out, name);
        assert(out@ =~= shard_path_spec(name@));
    }
    out
}

} // verus!
