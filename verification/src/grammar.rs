//! The filename grammar that turns a directory of audio files into a
//! binding table.
//!
//! A filename's stem (the part before the extension's dot) is split on
//! `-` into tokens. The last token names the key; every earlier token
//! must name one of the three modifiers, case-insensitively. A file
//! whose stem does not fit the grammar is skipped; the scan goes on.

use vstd::prelude::*;
use vstd::slice::slice_subrange;
use crate::binding::{BindingModel, KeyBinding, KeybindingTable, SoundModel, SoundRef};
use crate::keys::{key_of_token, key_from_token, lower_bytes, lower_eq, KeyId};

verus! {

/// ASCII code of `'-'`, the token delimiter.
pub const DASH: u8 = 45;

/// ASCII code of `'.'`, the extension delimiter.
pub const DOT: u8 = 46;

/// The split of `s` on delimiter `d`: always at least one token, with
/// empty tokens where delimiters meet each other or an end.
pub open spec fn split_on(s: Seq<u8>, d: u8) -> Seq<Seq<u8>>
    decreases s.len(),
{
    if s.len() == 0 {
        seq![Seq::<u8>::empty()]
    } else if s[0] == d {
        seq![Seq::<u8>::empty()] + split_on(s.drop_first(), d)
    } else {
        let rest = split_on(s.drop_first(), d);
        seq![seq![s[0]] + rest[0]] + rest.drop_first()
    }
}

/// A split is never empty: even `""` splits into one empty token.
pub proof fn lemma_split_on_nonempty(s: Seq<u8>, d: u8)
    ensures
        split_on(s, d).len() >= 1,
    decreases s.len(),
{
    if s.len() != 0 {
        lemma_split_on_nonempty(s.drop_first(), d);
    }
}

/// Tokens joined back with delimiter `d` between them.
pub open spec fn join_with(toks: Seq<Seq<u8>>, d: u8) -> Seq<u8>
    decreases toks.len(),
{
    if toks.len() == 0 {
        Seq::<u8>::empty()
    } else if toks.len() == 1 {
        toks[0]
    } else {
        toks[0] + seq![d] + join_with(toks.drop_first(), d)
    }
}

/// Law: joining a split with its delimiter restores the input, so the
/// split loses nothing and invents nothing.
pub proof fn lemma_split_on_join(s: Seq<u8>, d: u8)
    ensures
        join_with(split_on(s, d), d) =~= s,
    decreases s.len(),
{
    if s.len() == 0 {
    } else {
        lemma_split_on_join(s.drop_first(), d);
        lemma_split_on_nonempty(s.drop_first(), d);
        let rest = split_on(s.drop_first(), d);
        if s[0] == d {
            assert(split_on(s, d).drop_first() =~= rest);
            assert(join_with(split_on(s, d), d) =~= Seq::<u8>::empty() + seq![d] + join_with(
                rest,
                d,
            ));
            assert(join_with(split_on(s, d), d) =~= s);
        } else {
            if rest.len() == 1 {
                assert(join_with(split_on(s, d), d) =~= s);
            } else {
                assert(split_on(s, d).drop_first() =~= rest.drop_first());
                assert(join_with(split_on(s, d), d) =~= seq![s[0]] + rest[0] + seq![d] + join_with(
                    rest.drop_first(),
                    d,
                ));
                assert(join_with(rest, d) =~= rest[0] + seq![d] + join_with(rest.drop_first(), d));
                assert(join_with(split_on(s, d), d) =~= seq![s[0]] + join_with(rest, d));
            }
        }
    }
}

/// Law: no token of a split contains the delimiter; the delimiter
/// only ever separates tokens.
pub proof fn lemma_split_on_no_delimiter(s: Seq<u8>, d: u8)
    ensures
        forall|i: int|
            0 <= i < split_on(s, d).len() ==> !(#[trigger] split_on(s, d)[i]).contains(d),
    decreases s.len(),
{
    if s.len() == 0 {
        assert(!split_on(s, d)[0].contains(d));
    } else {
        lemma_split_on_no_delimiter(s.drop_first(), d);
        lemma_split_on_nonempty(s.drop_first(), d);
        let rest = split_on(s.drop_first(), d);
        if s[0] == d {
            assert(!split_on(s, d)[0].contains(d));
            assert forall|i: int| 1 <= i < split_on(s, d).len() implies !(#[trigger] split_on(
                s,
                d,
            )[i]).contains(d) by {
                assert(split_on(s, d)[i] == rest[i - 1]);
            }
        } else {
            assert(!(seq![s[0]] + rest[0]).contains(d)) by {
                assert(!rest[0].contains(d));
                if (seq![s[0]] + rest[0]).contains(d) {
                    let k = choose|k: int|
                        0 <= k < (seq![s[0]] + rest[0]).len() && (seq![s[0]] + rest[0])[k] == d;
                    assert(k > 0);
                    assert(rest[0][k - 1] == d);
                }
            }
            assert forall|i: int| 1 <= i < split_on(s, d).len() implies !(#[trigger] split_on(
                s,
                d,
            )[i]).contains(d) by {
                assert(split_on(s, d)[i] == rest[i]);
            }
        }
    }
}

/// The view of each vector in `r`.
pub open spec fn seq_views(r: Seq<Vec<u8>>) -> Seq<Seq<u8>> {
    r.map_values(|v: Vec<u8>| v@)
}

/// Splits `s[from..]` on `d`, mirroring `split_on`'s recursion.
fn split_from(s: &[u8], from: usize, d: u8) -> (r: Vec<Vec<u8>>)
    requires
        from <= s@.len(),
    ensures
        seq_views(r@) =~= split_on(s@.subrange(from as int, s@.len() as int), d),
        r@.len() >= 1,
    decreases s@.len() - from,
{
    let ghost suffix = s@.subrange(from as int, s@.len() as int);
    proof {
        lemma_split_on_nonempty(suffix, d);
    }
    if from == s.len() {
        let mut r: Vec<Vec<u8>> = Vec::new();
        r.push(Vec::new());
        assert(seq_views(r@) =~~= split_on(suffix, d));
        r
    } else {
        proof {
            assert(suffix.drop_first() =~= s@.subrange(from as int + 1, s@.len() as int));
            lemma_split_on_nonempty(suffix.drop_first(), d);
        }
        if s[from] == d {
            let mut rest = split_from(s, from + 1, d);
            rest.insert(0, Vec::new());
            assert(seq_views(rest@) =~~= split_on(suffix, d));
            rest
        } else {
            let mut rest = split_from(s, from + 1, d);
            let mut first = rest.remove(0);
            first.insert(0, s[from]);
            rest.insert(0, first);
            assert(seq_views(rest@) =~~= split_on(suffix, d));
            rest
        }
    }
}

/// Splits `s` on delimiter `d` into owned tokens.
pub fn split_bytes(s: &[u8], d: u8) -> (r: Vec<Vec<u8>>)
    ensures
        seq_views(r@) =~= split_on(s@, d),
        r@.len() >= 1,
{
    let ghost whole = s@.subrange(0, s@.len() as int);
    proof {
        assert(whole =~= s@);
    }
    split_from(s, 0, d)
}

/// The index of the last `.` in `name`, if any.
pub open spec fn last_dot(name: Seq<u8>) -> Option<int>
    decreases name.len(),
{
    if name.len() == 0 {
        None
    } else if name[name.len() - 1] == DOT {
        Some(name.len() - 1)
    } else {
        last_dot(name.drop_last())
    }
}

/// Finds the last `.` in `name`.
pub fn find_last_dot(name: &[u8]) -> (r: Option<usize>)
    ensures
        match r {
            Some(i) => last_dot(name@) == Some(i as int) && i < name@.len(),
            None => last_dot(name@) is None,
        },
{
    proof {
        assert(name@.subrange(0, name@.len() as int) =~= name@);
    }
    let mut i: usize = name.len();
    while i > 0
        invariant
            0 <= i <= name@.len(),
            last_dot(name@) == last_dot(name@.subrange(0, i as int)),
        decreases i,
    {
        let ghost prefix = name@.subrange(0, i as int);
        if name[i - 1] == DOT {
            assert(last_dot(prefix) == Some(i - 1));
            return Some(i - 1);
        }
        proof {
            assert(prefix.drop_last() =~= name@.subrange(0, i - 1));
        }
        i -= 1;
    }
    assert(name@.subrange(0, 0) =~= Seq::<u8>::empty());
    None
}

/// Law: `last_dot` finds a dot, the last one — or there is none.
pub proof fn lemma_last_dot_position(name: Seq<u8>)
    ensures
        match last_dot(name) {
            Some(i) => 0 <= i < name.len() && name[i] == DOT && forall|j: int|
                i < j < name.len() ==> name[j] != DOT,
            None => forall|j: int| 0 <= j < name.len() ==> name[j] != DOT,
        },
    decreases name.len(),
{
    if name.len() > 0 && name[name.len() - 1] != DOT {
        lemma_last_dot_position(name.drop_last());
        let sub = name.drop_last();
        match last_dot(sub) {
            Some(i) => {
                assert(name[i] == sub[i]);
                assert forall|j: int| i < j < name.len() implies name[j] != DOT by {
                    if j < name.len() - 1 {
                        assert(sub[j] != DOT);
                    }
                }
            },
            None => {
                assert forall|j: int| 0 <= j < name.len() implies name[j] != DOT by {
                    if j < name.len() - 1 {
                        assert(sub[j] != DOT);
                    }
                }
            },
        }
    }
}

/// The extension of `name`: the bytes after the last dot, provided
/// that dot is not the first byte (a leading dot alone marks a hidden
/// file, not an extension).
pub open spec fn ext_of(name: Seq<u8>) -> Option<Seq<u8>> {
    match last_dot(name) {
        Some(i) => if i > 0 {
            Some(name.subrange(i + 1, name.len() as int))
        } else {
            None
        },
        None => None,
    }
}

/// The stem of `name`: the bytes before the extension's dot, or the
/// whole name when there is no extension.
pub open spec fn stem_of(name: Seq<u8>) -> Seq<u8> {
    match last_dot(name) {
        Some(i) => if i > 0 {
            name.subrange(0, i)
        } else {
            name
        },
        None => name,
    }
}

/// Law: when a name has an extension, the stem, one dot and the
/// extension partition the name exactly; when it has none, the stem
/// is the whole name.
pub proof fn lemma_stem_ext_partition(name: Seq<u8>)
    ensures
        ext_of(name) matches Some(e) ==> name =~= stem_of(name) + seq![DOT] + e,
        ext_of(name) is None ==> stem_of(name) == name,
{
    lemma_last_dot_position(name);
}

/// The bytes of the extension `flac`.
pub open spec fn word_flac() -> Seq<u8> {
    seq![102u8, 108, 97, 99]
}

/// The bytes of the extension `wav`.
pub open spec fn word_wav() -> Seq<u8> {
    seq![119u8, 97, 118]
}

/// The bytes of the extension `mp3`.
pub open spec fn word_mp3() -> Seq<u8> {
    seq![109u8, 112, 51]
}

/// The bytes of the extension `ogg`.
pub open spec fn word_ogg() -> Seq<u8> {
    seq![111u8, 103, 103]
}

/// Whether `e` is one of the allowed audio extensions, compared
/// case-insensitively.
pub open spec fn is_audio_ext(e: Seq<u8>) -> bool {
    ||| lower_bytes(e) == word_flac()
    ||| lower_bytes(e) == word_wav()
    ||| lower_bytes(e) == word_mp3()
    ||| lower_bytes(e) == word_ogg()
}

/// Whether `name` carries one of the allowed audio extensions.
pub open spec fn has_audio_ext(name: Seq<u8>) -> bool {
    match ext_of(name) {
        Some(e) => is_audio_ext(e),
        None => false,
    }
}

/// The bytes of the modifier word `cmd`.
pub open spec fn word_cmd() -> Seq<u8> {
    seq![99u8, 109, 100]
}

/// The bytes of the modifier word `shift`.
pub open spec fn word_shift() -> Seq<u8> {
    seq![115u8, 104, 105, 102, 116]
}

/// The bytes of the modifier word `ctrl`.
pub open spec fn word_ctrl() -> Seq<u8> {
    seq![99u8, 116, 114, 108]
}

/// Whether `t` names the primary (command) modifier.
pub open spec fn is_cmd_token(t: Seq<u8>) -> bool {
    lower_bytes(t) == word_cmd()
}

/// Whether `t` names the secondary (shift) modifier.
pub open spec fn is_shift_token(t: Seq<u8>) -> bool {
    lower_bytes(t) == word_shift()
}

/// Whether `t` names the tertiary (control) modifier.
pub open spec fn is_ctrl_token(t: Seq<u8>) -> bool {
    lower_bytes(t) == word_ctrl()
}

/// Whether `t` names any recognized modifier.
pub open spec fn is_mod_token(t: Seq<u8>) -> bool {
    is_cmd_token(t) || is_shift_token(t) || is_ctrl_token(t)
}

/// What a stem means: the required modifier set and the key.
pub ghost struct StemParse {
    pub cmd: bool,
    pub shift: bool,
    pub ctrl: bool,
    pub key: KeyId,
}

/// The parse of a stem. The last token must name a key; every earlier
/// token must name a modifier; either failure rejects the whole stem.
/// A modifier is required exactly when some leading token names it, so
/// repeated or reordered modifier tokens are harmless.
pub open spec fn stem_binding(stem: Seq<u8>) -> Option<StemParse> {
    let toks = split_on(stem, DASH);
    let n = toks.len() as int;
    match key_of_token(toks[n - 1]) {
        Some(k) => if forall|i: int| 0 <= i < n - 1 ==> is_mod_token(#[trigger] toks[i]) {
            Some(
                StemParse {
                    cmd: exists|i: int| 0 <= i < n - 1 && is_cmd_token(#[trigger] toks[i]),
                    shift: exists|i: int| 0 <= i < n - 1 && is_shift_token(#[trigger] toks[i]),
                    ctrl: exists|i: int| 0 <= i < n - 1 && is_ctrl_token(#[trigger] toks[i]),
                    key: k,
                },
            )
        } else {
            None
        },
        None => None,
    }
}

/// The parse of a whole filename: its stem's parse.
pub open spec fn filename_binding(name: Seq<u8>) -> Option<StemParse> {
    stem_binding(stem_of(name))
}

/// Whether `name` carries one of the allowed audio extensions,
/// executable form.
pub fn check_audio_ext(name: &[u8]) -> (r: bool)
    ensures
        r == has_audio_ext(name@),
{
    let len = name.len();
    match find_last_dot(name) {
        Some(i) => {
            if i > 0 {
                let e = slice_subrange(name, i + 1, len);
                // flac / wav / mp3 / ogg
                lower_eq(e, &[102, 108, 97, 99]) || lower_eq(e, &[119, 97, 118]) || lower_eq(
                    e,
                    &[109, 112, 51],
                ) || lower_eq(e, &[111, 103, 103])
            } else {
                false
            }
        },
        None => false,
    }
}

/// Parses one filename into a binding whose sound is the file at
/// `path`, loaded lazily at trigger time. Returns `None`, skipping the
/// file, when the stem does not fit the grammar. The extension is the
/// scan's concern, not this function's.
pub fn parse_filename(name: &[u8], path: Vec<u8>) -> (r: Option<KeyBinding>)
    ensures
        match filename_binding(name@) {
            Some(p) => r matches Some(b) && b@ == (BindingModel {
                cmd: p.cmd,
                shift: p.shift,
                ctrl: p.ctrl,
                key: p.key,
                sound: SoundModel::File(path@),
            }),
            None => r is None,
        },
{
    let stem: &[u8] = match find_last_dot(name) {
        Some(i) => if i > 0 {
            slice_subrange(name, 0, i)
        } else {
            name
        },
        None => name,
    };
    assert(stem@ == stem_of(name@));
    let toks = split_bytes(stem, DASH);
    let ghost gtoks = split_on(stem_of(name@), DASH);
    let n = toks.len();
    let last_tok = &toks[n - 1];
    assert(last_tok@ == gtoks[n - 1]);
    let key = match key_from_token(last_tok.as_slice()) {
        Some(k) => k,
        None => {
            return None;
        },
    };
    let mut cmd = false;
    let mut shift = false;
    let mut ctrl = false;
    let mut i: usize = 0;
    while i < n - 1
        invariant
            n == toks@.len(),
            1 <= n,
            seq_views(toks@) =~= gtoks,
            gtoks == split_on(stem_of(name@), DASH),
            0 <= i <= n - 1,
            forall|j: int| 0 <= j < i ==> is_mod_token(#[trigger] gtoks[j]),
            cmd == exists|j: int| 0 <= j < i && is_cmd_token(#[trigger] gtoks[j]),
            shift == exists|j: int| 0 <= j < i && is_shift_token(#[trigger] gtoks[j]),
            ctrl == exists|j: int| 0 <= j < i && is_ctrl_token(#[trigger] gtoks[j]),
        decreases n - 1 - i,
    {
        let t = &toks[i];
        assert(t@ == gtoks[i as int]);
        // cmd / shift / ctrl
        if lower_eq(t.as_slice(), &[99, 109, 100]) {
            cmd = true;
            assert(is_cmd_token(gtoks[i as int]));
        } else if lower_eq(t.as_slice(), &[115, 104, 105, 102, 116]) {
            shift = true;
            assert(is_shift_token(gtoks[i as int]));
        } else if lower_eq(t.as_slice(), &[99, 116, 114, 108]) {
            ctrl = true;
            assert(is_ctrl_token(gtoks[i as int]));
        } else {
            assert(!is_mod_token(gtoks[i as int]));
            return None;
        }
        i += 1;
    }
    Some(KeyBinding { cmd, shift, ctrl, key, sound: SoundRef::File(path) })
}

/// One regular file found by the directory scan: the bare filename
/// the grammar reads, and the full path stored for playback.
#[derive(Debug)]
pub struct ScanEntry {
    pub name: Vec<u8>,
    pub path: Vec<u8>,
}

/// Mathematical image of a `ScanEntry`.
pub ghost struct ScanEntryModel {
    pub name: Seq<u8>,
    pub path: Seq<u8>,
}

impl View for ScanEntry {
    type V = ScanEntryModel;

    open spec fn view(&self) -> ScanEntryModel {
        ScanEntryModel { name: self.name@, path: self.path@ }
    }
}

/// The view of each entry in `s`.
pub open spec fn entry_views(s: Seq<ScanEntry>) -> Seq<ScanEntryModel> {
    s.map_values(|e: ScanEntry| e@)
}

/// What one scanned file contributes to the table: a binding when the
/// extension is allowed and the stem parses, nothing otherwise.
pub open spec fn entry_binding(e: ScanEntryModel) -> Option<BindingModel> {
    if has_audio_ext(e.name) {
        match filename_binding(e.name) {
            Some(p) => Some(
                BindingModel {
                    cmd: p.cmd,
                    shift: p.shift,
                    ctrl: p.ctrl,
                    key: p.key,
                    sound: SoundModel::File(e.path),
                },
            ),
            None => None,
        }
    } else {
        None
    }
}

/// The table a scan builds: each entry's contribution, in scan order,
/// with rejected files skipped.
pub open spec fn table_of(entries: Seq<ScanEntryModel>) -> Seq<BindingModel>
    decreases entries.len(),
{
    if entries.len() == 0 {
        Seq::<BindingModel>::empty()
    } else {
        table_of(entries.drop_last()) + match entry_binding(entries.last()) {
            Some(b) => seq![b],
            None => Seq::<BindingModel>::empty(),
        }
    }
}

/// Builds the binding table from a directory scan's entries. A file
/// whose name does not fit the grammar is skipped without aborting the
/// scan, and an empty result is a working, empty table.
pub fn build_table(entries: &Vec<ScanEntry>) -> (t: KeybindingTable)
    ensures
        t@ =~= table_of(entry_views(entries@)),
{
    let ghost ems = entry_views(entries@);
    let mut t = KeybindingTable::new();
    let mut idx: usize = 0;
    while idx < entries.len()
        invariant
            idx <= entries@.len(),
            ems == entry_views(entries@),
            t@ =~= table_of(ems.take(idx as int)),
        decreases entries@.len() - idx,
    {
        let e = &entries[idx];
        proof {
            assert(ems.take(idx + 1).drop_last() =~= ems.take(idx as int));
            assert(ems.take(idx + 1).last() == ems[idx as int]);
        }
        if check_audio_ext(e.name.as_slice()) {
            let p = vstd::slice::slice_to_vec(e.path.as_slice());
            match parse_filename(e.name.as_slice(), p) {
                Some(b) => {
                    t.push(b);
                },
                None => {},
            }
        }
        idx += 1;
    }
    proof {
        assert(ems.take(entries@.len() as int) =~= ems);
    }
    t
}

} // verus!
