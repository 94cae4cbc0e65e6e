//! Where the plugin keeps its files. Paths are byte strings, as on Unix.
use vstd::prelude::*;
use vstd::utf8::encode_utf8;

use crate::text::opt_bytes;

verus! {

/// herdr's state dir for this plugin, below the home directory. It stands in
/// for the one that herdr names to the processes it launches, so that plain
/// shells read the same history.
pub const STATE_FALLBACK_REL: &'static str =
    ".local/state/herdr/plugins/jlangston.multi-clipboard";

const SLASH: u8 = 47;

/// `rel` taken from the directory `base`: an absolute path stands for itself.
pub open spec fn joined(base: Seq<u8>, rel: Seq<u8>) -> Seq<u8> {
    if rel.len() > 0 && rel[0] == 47 {
        rel
    } else if base.len() == 0 || base.last() == 47 {
        base + rel
    } else {
        base.push(47) + rel
    }
}

/// The directory that a variable names, or else the fallback.
pub open spec fn chosen_dir(var: Option<Seq<u8>>, home: Seq<u8>, fallback_rel: Seq<u8>) -> Seq<u8> {
    match var {
        Some(v) => if v.len() > 0 {
            v
        } else {
            joined(home, fallback_rel)
        },
        None => joined(home, fallback_rel),
    }
}

fn push_all(out: &mut Vec<u8>, bytes: &[u8])
    ensures
        final(out)@ == old(out)@ + bytes@,
{
    let mut i: usize = 0;
    while i < bytes.len()
        invariant
            i <= bytes@.len(),
            out@ == old(out)@ + bytes@.take(i as int),
        decreases bytes@.len() - i,
    {
        out.push(bytes[i]);
        i += 1;
    }
    assert(bytes@.take(i as int) =~= bytes@);
}

/// `rel` taken from the directory `base`.
pub fn join(base: &[u8], rel: &[u8]) -> (path: Vec<u8>)
    ensures
        path@ == joined(base@, rel@),
{
    let mut path: Vec<u8> = Vec::new();
    if !(rel.len() > 0 && rel[0] == SLASH) {
        push_all(&mut path, base);
        if base.len() > 0 && base[base.len() - 1] != SLASH {
            path.push(SLASH);
        }
    }
    push_all(&mut path, rel);
    assert(path@ =~= joined(base@, rel@));
    path
}

/// The directory that the variable names if it is set and not empty, or else
/// `fallback_rel` below `home`.
pub fn dir_from(var: Option<Vec<u8>>, home: &[u8], fallback_rel: &[u8]) -> (dir: Vec<u8>)
    ensures
        dir@ == chosen_dir(opt_bytes(var), home@, fallback_rel@),
{
    match var {
        Some(v) => if v.len() > 0 {
            v
        } else {
            join(home, fallback_rel)
        },
        None => join(home, fallback_rel),
    }
}

/// Directory for history and lock files: what herdr names to plugin-launched
/// processes in a variable, or else the same directory below the home
/// directory (the current one where there is no home).
pub fn state_dir(var: Option<Vec<u8>>, home: Option<Vec<u8>>) -> (dir: Vec<u8>)
    ensures
        dir@ == chosen_dir(
            opt_bytes(var),
            match home {
                Some(h) => h@,
                None => seq![46u8],
            },
            encode_utf8(STATE_FALLBACK_REL@),
        ),
{
    let base: Vec<u8> = match home {
        Some(h) => h,
        None => {
            let mut dot: Vec<u8> = Vec::new();
            dot.push(46);
            assert(dot@ =~= seq![46u8]);
            dot
        },
    };
    dir_from(var, base.as_slice(), STATE_FALLBACK_REL.as_bytes())
}

/// The directory of the configuration, if herdr names one.
pub fn config_dir(var: Option<Vec<u8>>) -> (dir: Option<Vec<u8>>)
    ensures
        match var {
            Some(v) => if v@.len() > 0 {
                dir == Some(v)
            } else {
                dir is None
            },
            None => dir is None,
        },
{
    match var {
        Some(v) => if v.len() > 0 {
            Some(v)
        } else {
            None
        },
        None => None,
    }
}

} // verus!
