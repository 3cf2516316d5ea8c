//! Packaging: writes every included entry of the walked tree, under its
//! root-relative name, into a sequential archive wrapped in a compression
//! layer, producing a single byte artifact. The walk itself happens outside
//! this crate and hands entries in as plain values, in discovery order.
use vstd::prelude::*;
use std::io::Write;
use crate::DeployError;
use crate::ignore::{Decision, IgnoreRuleSet, RuleSetView, spec_decision};
use crate::paths::{is_absolute, is_under, rel_path_of};

verus! {

/// One filesystem entry handed in by the directory walk: its absolute path
/// and, for a file, its content (`None` marks a directory).
pub struct RawEntry {
    pub abs_path: String,
    pub content: Option<Vec<u8>>,
}

impl RawEntry {
    /// The absolute path of the entry.
    pub open spec fn abs(&self) -> Seq<char> {
        self.abs_path@
    }

    /// The content of the entry: bytes for a file, `None` for a directory.
    pub open spec fn data(&self) -> Option<Seq<u8>> {
        match self.content {
            Some(v) => Some(v@),
            None => None,
        }
    }
}

/// A `.` or `..` component starts at position `i` of `name`.
pub open spec fn dot_component_at(name: Seq<char>, i: int) -> bool {
    &&& 0 <= i < name.len()
    &&& (i == 0 || name[i - 1] == '/')
    &&& name[i] == '.'
    &&& (i + 1 == name.len() || name[i + 1] == '/' || (name[i + 1] == '.' && (i + 2
        == name.len() || name[i + 2] == '/')))
}

/// An archive name in component-normal form: nonempty, relative, with no
/// empty, `.` or `..` components and no trailing `/`. The archive writer
/// stores exactly such a name, component normalization changing nothing.
pub open spec fn component_normal(name: Seq<char>) -> bool {
    &&& name.len() > 0
    &&& name[0] != '/'
    &&& name[name.len() - 1] != '/'
    &&& forall|i: int| 0 <= i < name.len() - 1 ==> !(#[trigger] name[i] == '/' && name[i + 1]
        == '/')
    &&& forall|i: int| !dot_component_at(name, i)
}

/// Decides `component_normal`.
pub fn is_component_normal(name: &str) -> (r: bool)
    ensures
        r == component_normal(name@),
{
    let n = name.unicode_len();
    if n == 0 {
        return false;
    }
    if name.get_char(0) == '/' {
        return false;
    }
    if name.get_char(n - 1) == '/' {
        return false;
    }
    let mut i: usize = 0;
    while i < n
        invariant
            n == name@.len(),
            0 < n,
            name@[0] != '/',
            name@[n - 1] != '/',
            0 <= i <= n,
            forall|j: int| 0 <= j < i ==> !(#[trigger] name@[j] == '/' && j + 1 < n && name@[j
                + 1] == '/'),
            forall|j: int| 0 <= j < i ==> !dot_component_at(name@, j),
        decreases n - i,
    {
        let c = name.get_char(i);
        if c == '/' && i + 1 < n && name.get_char(i + 1) == '/' {
            return false;
        }
        if c == '.' && (i == 0 || name.get_char(i - 1) == '/') {
            if i + 1 == n || name.get_char(i + 1) == '/' {
                assert(dot_component_at(name@, i as int));
                return false;
            }
            if name.get_char(i + 1) == '.' && (i + 2 == n || name.get_char(i + 2) == '/') {
                assert(dot_component_at(name@, i as int));
                return false;
            }
        }
        assert(!dot_component_at(name@, i as int));
        i = i + 1;
    }
    true
}

/// Whether the archive writer's path encoding accepts a component-normal
/// name (an overlong name can exceed what the format's long-name extension
/// takes); `tar::Builder::append_data` decides it, as a function of the name
/// alone when the output buffer cannot fail.
pub uninterp spec fn tar_name_ok(name: Seq<char>) -> bool;

/// An in-progress archive: a sequential-archive writer over an in-memory
/// buffer. Opaque to the verifier; `tar_entries` names what it holds.
#[verifier::external_body]
pub struct ArchiveBuilder {
    inner: tar::Builder<Vec<u8>>,
}

/// The entries appended so far to an archive builder, in order: each a
/// relative name with the content of a file, or `None` for a directory.
pub uninterp spec fn tar_entries(b: ArchiveBuilder) -> Seq<(Seq<char>, Option<Seq<u8>>)>;

/// The serialized archive holding exactly `entries`, end-of-archive marker
/// included; a function of the entries alone.
pub uninterp spec fn tar_bytes(entries: Seq<(Seq<char>, Option<Seq<u8>>)>) -> Seq<u8>;

/// The entries read back from a serialized archive, or `None` when the bytes
/// are not a well-formed archive.
pub uninterp spec fn tar_parse(data: Seq<u8>) -> Option<Seq<(Seq<char>, Option<Seq<u8>>)>>;

/// The compressed encoding of `data`; `flate2` keeps its streams
/// reproducible (zero timestamp, fixed operating-system byte), so this is a
/// function of the bytes alone.
pub uninterp spec fn gzip_of(data: Seq<u8>) -> Seq<u8>;

/// The bytes recovered by decompressing, or `None` when the input is not a
/// well-formed compressed stream.
pub uninterp spec fn gunzip_of(data: Seq<u8>) -> Option<Seq<u8>>;

/// Relies on `tar::Builder::new`: a fresh builder holds no entries.
#[verifier::external_body]
fn tar_builder_new() -> (b: ArchiveBuilder)
    ensures
        tar_entries(b) == Seq::<(Seq<char>, Option<Seq<u8>>)>::empty(),
{
    ArchiveBuilder { inner: tar::Builder::new(Vec::new()) }
}

/// Relies on `tar::Builder::append_data` with a fresh `tar::Header`: a
/// component-normal name is stored verbatim, so on success one file entry
/// holding `data` stands appended under exactly `name`; with the in-memory
/// buffer unable to fail, success is `tar_name_ok(name)`, a function of the
/// name alone, and an error writes nothing.
#[verifier::external_body]
fn tar_append_file(b: &mut ArchiveBuilder, name: &str, data: &Vec<u8>) -> (r: Result<
    (),
    (),
>)
    requires
        component_normal(name@),
    ensures
        (r is Ok) <==> tar_name_ok(name@),
        r is Ok ==> tar_entries(*final(b)) == tar_entries(*old(b)).push((name@, Some(data@))),
{
    let mut header = tar::Header::new_gnu();
    header.set_size(data.len() as u64);
    match b.inner.append_data(&mut header, name, data.as_slice()) {
        Ok(()) => Ok(()),
        Err(_) => Err(()),
    }
}

/// Relies on `tar::Builder::append_data` with a fresh directory-typed
/// `tar::Header`: a component-normal name is stored verbatim, so on success
/// one directory entry stands appended under exactly `name`; success is
/// `tar_name_ok(name)` as for a file entry, and an error writes nothing.
#[verifier::external_body]
fn tar_append_dir(b: &mut ArchiveBuilder, name: &str) -> (r: Result<(), ()>)
    requires
        component_normal(name@),
    ensures
        (r is Ok) <==> tar_name_ok(name@),
        r is Ok ==> tar_entries(*final(b)) == tar_entries(*old(b)).push((name@, None)),
{
    let mut header = tar::Header::new_gnu();
    header.set_entry_type(tar::EntryType::dir());
    header.set_size(0);
    match b.inner.append_data(&mut header, name, std::io::empty()) {
        Ok(()) => Ok(()),
        Err(_) => Err(()),
    }
}

/// Relies on `tar::Builder::into_inner`: it writes the end-of-archive marker
/// and hands back the serialized archive; the in-memory buffer cannot fail,
/// so it always succeeds. Reading that archive back with `tar::Archive`
/// yields exactly the appended entries, names and contents unchanged.
#[verifier::external_body]
fn tar_finish(b: ArchiveBuilder) -> (r: Result<Vec<u8>, ()>)
    ensures
        r is Ok,
        r matches Ok(bytes) ==> bytes@ == tar_bytes(tar_entries(b)) && tar_parse(
            tar_bytes(tar_entries(b)),
        ) == Some(tar_entries(b)),
{
    match b.inner.into_inner() {
        Ok(v) => Ok(v),
        Err(_) => Err(()),
    }
}

/// Relies on `flate2::write::GzEncoder` (`new`, `write_all`, `finish`) at the
/// default compression level: a reproducible compressed encoding of the
/// input, which `flate2`'s decoder recovers exactly. The encoder reports
/// only errors of the underlying writer, and an in-memory buffer has none,
/// so it always succeeds.
#[verifier::external_body]
fn gzip_compress(data: &Vec<u8>) -> (r: Result<Vec<u8>, ()>)
    ensures
        r is Ok,
        r matches Ok(out) ==> out@ == gzip_of(data@) && gunzip_of(gzip_of(data@)) == Some(
            data@,
        ),
{
    let mut enc = flate2::write::GzEncoder::new(Vec::new(), flate2::Compression::default());
    if enc.write_all(data.as_slice()).is_err() {
        return Err(());
    }
    match enc.finish() {
        Ok(v) => Ok(v),
        Err(_) => Err(()),
    }
}

/// The entries of `s` that the rules include, in discovery order.
pub open spec fn included_entries(rules: RuleSetView, s: Seq<RawEntry>) -> Seq<RawEntry>
    decreases s.len(),
{
    if s.len() == 0 {
        Seq::empty()
    } else if spec_decision(rules, s.last().abs()) == Decision::Included {
        included_entries(rules, s.drop_last()).push(s.last())
    } else {
        included_entries(rules, s.drop_last())
    }
}

/// The archive entries for `s` below `base`: each entry under its
/// root-relative name, a directory with no content.
pub open spec fn archive_entries(base: Seq<char>, s: Seq<RawEntry>) -> Seq<
    (Seq<char>, Option<Seq<u8>>),
> {
    s.map_values(|e: RawEntry| (rel_path_of(base, e.abs()), e.data()))
}

/// Every entry of `s` lies below the directory `base`.
pub open spec fn all_under(base: Seq<char>, s: Seq<RawEntry>) -> bool {
    forall|i: int| 0 <= i < s.len() ==> is_under(base, #[trigger] s[i].abs())
}

/// Every name of `named` is component-normal and accepted by the archive
/// writer's path encoding.
pub open spec fn names_ok(named: Seq<(Seq<char>, Option<Seq<u8>>)>) -> bool {
    forall|j: int|
        0 <= j < named.len() ==> component_normal((#[trigger] named[j]).0) && tar_name_ok(
            named[j].0,
        )
}

proof fn lemma_included_contains(rules: RuleSetView, s: Seq<RawEntry>, i: int)
    requires
        0 <= i < s.len(),
        spec_decision(rules, s[i].abs()) == Decision::Included,
    ensures
        included_entries(rules, s).contains(s[i]),
    decreases s.len(),
{
    if i == s.len() - 1 {
        assert(included_entries(rules, s).last() == s[i]);
    } else {
        lemma_included_contains(rules, s.drop_last(), i);
        let rest = included_entries(rules, s.drop_last());
        let k = choose|k: int| 0 <= k < rest.len() && rest[k] == s[i];
        if spec_decision(rules, s.last().abs()) == Decision::Included {
            assert(included_entries(rules, s)[k] == s[i]);
        }
    }
}

/// Builds the context archive: every entry of `entries` that the rules
/// include is written, in discovery order, under its path relative to
/// `base`, into a sequential archive wrapped in a compression layer. The
/// build succeeds exactly when every included entry lies below `base` under
/// a component-normal relative name that the archive writer accepts; the
/// bytes are then a function of the included entries alone, and
/// decompressing and reading them back yields exactly those entries. Every
/// failure is `PackagingIOError`.
pub fn build_package(base: &str, entries: &Vec<RawEntry>, rules: &IgnoreRuleSet) -> (r: Result<
    Vec<u8>,
    DeployError,
>)
    requires
        is_absolute(base@),
    ensures
        ({
            let inc = included_entries(rules@, entries@);
            let named = archive_entries(base@, inc);
            &&& (r is Ok) <==> (all_under(base@, inc) && names_ok(named))
            &&& r matches Ok(bytes) ==> {
                &&& bytes@ == gzip_of(tar_bytes(named))
                &&& gunzip_of(bytes@) == Some(tar_bytes(named))
                &&& tar_parse(tar_bytes(named)) == Some(named)
            }
            &&& r matches Err(e) ==> e matches DeployError::PackagingIOError
        }),
{
    let ghost inc_full = included_entries(rules@, entries@);
    let ghost named_full = archive_entries(base@, inc_full);
    let mut builder = tar_builder_new();
    let n = entries.len();
    let mut i: usize = 0;
    proof {
        assert(archive_entries(base@, included_entries(rules@, entries@.subrange(0, 0)))
            =~= Seq::<(Seq<char>, Option<Seq<u8>>)>::empty());
    }
    while i < n
        invariant
            n == entries@.len(),
            0 <= i <= n,
            is_absolute(base@),
            inc_full == included_entries(rules@, entries@),
            named_full == archive_entries(base@, inc_full),
            tar_entries(builder) == archive_entries(
                base@,
                included_entries(rules@, entries@.subrange(0, i as int)),
            ),
            all_under(base@, included_entries(rules@, entries@.subrange(0, i as int))),
            names_ok(
                archive_entries(base@, included_entries(rules@, entries@.subrange(0, i as int))),
            ),
        decreases n - i,
    {
        let ghost prefix = entries@.subrange(0, i as int);
        let ghost inc0 = included_entries(rules@, prefix);
        proof {
            assert(entries@.subrange(0, i + 1).drop_last() =~= prefix);
            assert(entries@.subrange(0, i + 1).last() == entries@[i as int]);
        }
        let e = &entries[i];
        let d = rules.decide(e.abs_path.as_str());
        match d {
            Decision::Included => {
                proof {
                    lemma_included_contains(rules@, entries@, i as int);
                }
                let ghost k = choose|k: int|
                    0 <= k < inc_full.len() && inc_full[k] == entries@[i as int];
                proof {
                    assert(named_full[k] == (
                        rel_path_of(base@, entries@[i as int].abs()),
                        entries@[i as int].data(),
                    ));
                }
                match crate::paths::relative_to(base, e.abs_path.as_str()) {
                    None => {
                        proof {
                            assert(!is_under(base@, inc_full[k].abs()));
                            assert(!all_under(base@, inc_full));
                        }
                        return Err(DeployError::PackagingIOError);
                    },
                    Some(rel) => {
                        if !is_component_normal(rel.as_str()) {
                            proof {
                                assert(!component_normal(named_full[k].0));
                                assert(!names_ok(named_full));
                            }
                            return Err(DeployError::PackagingIOError);
                        }
                        let appended = match &e.content {
                            Some(data) => tar_append_file(&mut builder, rel.as_str(), data),
                            None => tar_append_dir(&mut builder, rel.as_str()),
                        };
                        match appended {
                            Ok(()) => {},
                            Err(()) => {
                                proof {
                                    assert(!tar_name_ok(named_full[k].0));
                                    assert(!names_ok(named_full));
                                }
                                return Err(DeployError::PackagingIOError);
                            },
                        }
                        proof {
                            let inc1 = included_entries(rules@, entries@.subrange(0, i + 1));
                            assert(inc1 == inc0.push(entries@[i as int]));
                            assert(archive_entries(base@, inc1) =~= archive_entries(
                                base@,
                                inc0,
                            ).push((rel@, entries@[i as int].data())));
                            assert forall|j: int| 0 <= j < archive_entries(base@, inc1).len()
                                implies component_normal(
                                (#[trigger] archive_entries(base@, inc1)[j]).0,
                            ) && tar_name_ok(archive_entries(base@, inc1)[j].0) by {
                                if j < inc0.len() {
                                    assert(archive_entries(base@, inc1)[j] == archive_entries(
                                        base@,
                                        inc0,
                                    )[j]);
                                } else {
                                    assert(archive_entries(base@, inc1)[j] == (
                                        rel@,
                                        entries@[i as int].data(),
                                    ));
                                }
                            }
                        }
                    },
                }
            },
            Decision::Excluded => {
                proof {
                    assert(included_entries(rules@, entries@.subrange(0, i + 1)) == inc0);
                }
            },
        }
        i = i + 1;
    }
    proof {
        assert(entries@.subrange(0, n as int) =~= entries@);
    }
    let tarred = tar_finish(builder).unwrap();
    let out = gzip_compress(&tarred).unwrap();
    Ok(out)
}

/// Packaging is repeatable: two runs over the same entries and rules, below
/// the same base, produce the same included entries and the same archive
/// bytes.
pub proof fn lemma_packaging_deterministic(
    base: Seq<char>,
    entries: Seq<RawEntry>,
    rules: RuleSetView,
    b1: Seq<u8>,
    b2: Seq<u8>,
)
    requires
        b1 == gzip_of(tar_bytes(archive_entries(base, included_entries(rules, entries)))),
        b2 == gzip_of(tar_bytes(archive_entries(base, included_entries(rules, entries)))),
    ensures
        b1 == b2,
{
}

} // verus!
