//! Block-device model, filesystem-probe classifier and mount manager.
//!
//! The operating system's part — reading the device catalog, running the
//! probe, mount and unmount utilities — happens outside the library; each
//! function here takes those outcomes as plain values and states exactly
//! what is decided from them.

use vstd::prelude::*;

use crate::strutil::{
    find_char, opt_view, spec_find, spec_trim, split_lines, spec_split_lines, str_eq,
    trim_spaces_and_newline, views_of,
};
use crate::strutil;

verus! {

/// Error of the block-device layer; deliberately carries no detail.
#[derive(Debug)]
pub struct BlockDevError {}

/// One record of the device tree: a device or partition, its identifiers,
/// whether another subsystem holds it, and its exclusively-owned child
/// partitions.
#[derive(Debug)]
pub struct BlockDev {
    pub path: String,
    pub name: String,
    pub dev_major: u8,
    pub dev_minor: u8,
    pub has_holders: bool,
    pub partitions: Vec<BlockDev>,
}

/// A device may be mounted only if nothing holds it and it has no
/// child partitions.
pub open spec fn mount_eligible(d: BlockDev) -> bool {
    !d.has_holders && d.partitions@.len() == 0
}

pub open spec fn is_digit(c: char) -> bool {
    48 <= c as int <= 57
}

pub open spec fn digit_val(c: char) -> nat {
    (c as int - 48) as nat
}

pub open spec fn all_digits(s: Seq<char>) -> bool {
    forall|i: int| 0 <= i < s.len() ==> is_digit(s[i])
}

/// Value of a decimal digit string.
pub open spec fn dec_val(s: Seq<char>) -> nat
    decreases s.len(),
{
    if s.len() == 0 {
        0
    } else {
        dec_val(s.drop_last()) * 10 + digit_val(s.last())
    }
}

/// What `str::parse::<u8>` accepts: an optional plus sign, then one or
/// more decimal digits, with a value of at most 255.
pub open spec fn spec_parse_u8(s: Seq<char>) -> Option<u8> {
    let t = if s.len() > 0 && s[0] == '+' {
        s.drop_first()
    } else {
        s
    };
    if t.len() > 0 && all_digits(t) && dec_val(t) <= 255 {
        Some(dec_val(t) as u8)
    } else {
        None
    }
}

proof fn lemma_dec_val_prefix_le(s: Seq<char>, k: int)
    requires
        0 <= k <= s.len(),
    ensures
        dec_val(s.subrange(0, k)) <= dec_val(s),
    decreases s.len() - k,
{
    if k == s.len() {
        assert(s.subrange(0, k) =~= s);
    } else {
        assert(s.subrange(0, k + 1).drop_last() =~= s.subrange(0, k));
        assert(dec_val(s.subrange(0, k + 1)) == dec_val(s.subrange(0, k)) * 10 + digit_val(
            s.subrange(0, k + 1).last(),
        ));
        lemma_dec_val_prefix_le(s, k + 1);
    }
}

impl BlockDev {
    /// Reads an unsigned 8-bit decimal number; a missing string is a
    /// parse failure, as is anything `str::parse::<u8>` would reject.
    #[verifier::loop_isolation(false)]
    pub fn parse_u8(s: Option<&str>) -> (r: Result<u8, BlockDevError>)
        ensures
            s is None ==> r is Err,
            s matches Some(st) ==> ((r matches Ok(n) ==> spec_parse_u8(st@) == Some(n)) && (r
                is Err ==> spec_parse_u8(st@) is None)),
    {
        let st = match s {
            Some(st) => st,
            None => {
                return Err(BlockDevError {  });
            },
        };
        let len = st.unicode_len();
        let start: usize = if len > 0 && st.get_char(0) == '+' {
            1
        } else {
            0
        };
        if start == len {
            return Err(BlockDevError {  });
        }
        let ghost t = if st@.len() > 0 && st@[0] == '+' {
            st@.drop_first()
        } else {
            st@
        };
        proof {
            assert(t =~= st@.subrange(start as int, len as int));
        }
        let mut acc: u32 = 0;
        let mut i: usize = start;
        while i < len
            invariant
                start <= i <= len,
                len == st@.len(),
                start == 1 <==> len > 0 && st@[0] == '+',
                start == 0 || start == 1,
                t == (if st@.len() > 0 && st@[0] == '+' {
                    st@.drop_first()
                } else {
                    st@
                }),
                t == st@.subrange(start as int, len as int),
                all_digits(st@.subrange(start as int, i as int)),
                acc == dec_val(st@.subrange(start as int, i as int)),
                acc <= 255,
            decreases len - i,
        {
            let c = st.get_char(i);
            let d = c as u32;
            let ghost prefix = st@.subrange(start as int, i as int);
            proof {
                assert(st@.subrange(start as int, i + 1).drop_last() =~= prefix);
                assert(st@.subrange(start as int, i + 1).last() == st@[i as int]);
            }
            if d < 48 || d > 57 {
                proof {
                    assert(t[i - start] == st@[i as int]);
                    assert(!is_digit(t[i - start]));
                    assert(!all_digits(t));
                }
                return Err(BlockDevError {  });
            }
            if acc * 10 + (d - 48) > 255 {
                proof {
                    assert(dec_val(st@.subrange(start as int, i + 1)) > 255);
                    if all_digits(t) {
                        lemma_dec_val_prefix_le(t, i + 1 - start);
                        assert(t.subrange(0, i + 1 - start) =~= st@.subrange(start as int, i + 1));
                        assert(dec_val(t) > 255);
                    }
                }
                return Err(BlockDevError {  });
            }
            acc = acc * 10 + (d - 48);
            i += 1;
        }
        proof {
            assert(st@.subrange(start as int, len as int) =~= t);
        }
        Ok(acc as u8)
    }

    /// Reads the colon-separated `major:minor` identifier pair from the
    /// contents of a device's metadata file.
    pub fn get_major_minor(contents: &str) -> (r: Result<(u8, u8), BlockDevError>)
        ensures
            match r {
                Ok(p) => spec_major_minor(contents@) == Some(p),
                Err(_) => spec_major_minor(contents@) is None,
            },
    {
        let trimmed = trim_spaces_and_newline(contents);
        let tlen = trimmed.unicode_len();
        let i = match find_char(trimmed, ':') {
            Some(i) => i,
            None => {
                return Err(BlockDevError {  });
            },
        };
        proof {
            strutil::lemma_find_is_first(trimmed@, ':', i as int);
        }
        let major = match Self::parse_u8(Some(trimmed.substring_char(0, i))) {
            Ok(v) => v,
            Err(e) => {
                return Err(e);
            },
        };
        let minor = match Self::parse_u8(Some(trimmed.substring_char(i + 1, tlen))) {
            Ok(v) => v,
            Err(e) => {
                return Err(e);
            },
        };
        Ok((major, minor))
    }

    /// Builds the record for one catalog entry from the values read
    /// there: its name, the contents of its identifier file, whether its
    /// holders relation is non-empty, and its already-built partitions.
    /// The device node path is derived from the name.
    pub fn from_sys_path(
        name: String,
        dev_contents: &str,
        has_holders: bool,
        partitions: Vec<BlockDev>,
    ) -> (r: Result<BlockDev, BlockDevError>)
        ensures
            match r {
                Ok(d) => {
                    &&& spec_major_minor(dev_contents@) == Some((d.dev_major, d.dev_minor))
                    &&& d.name == name
                    &&& d.path@ == "/dev/"@ + name@
                    &&& d.has_holders == has_holders
                    &&& d.partitions == partitions
                },
                Err(_) => spec_major_minor(dev_contents@) is None,
            },
    {
        let (major, minor) = match Self::get_major_minor(dev_contents) {
            Ok(p) => p,
            Err(e) => {
                return Err(e);
            },
        };
        let path = String::from_str("/dev/").concat(name.as_str());
        Ok(
            BlockDev {
                path,
                name,
                dev_major: major,
                dev_minor: minor,
                has_holders,
                partitions,
            },
        )
    }

    /// Looks up the catalog record whose identifiers match a raw device
    /// number read from a device node: the number is decomposed into its
    /// 8-bit major and minor parts and the list is scanned in order.
    #[verifier::loop_isolation(false)]
    pub fn from_dev_path(rdev: u64, devs: Vec<BlockDev>) -> (r: Result<BlockDev, BlockDevError>)
        ensures
            match r {
                Ok(d) => spec_find_dev(devs@, spec_rdev_major(rdev), spec_rdev_minor(rdev))
                    == Some(d),
                Err(_) => spec_find_dev(devs@, spec_rdev_major(rdev), spec_rdev_minor(rdev))
                    is None,
            },
    {
        let major_wide = (rdev & 0xFF00u64) >> 8;
        let minor_wide = rdev & 0x00FFu64;
        proof {
            assert((rdev & 0xFF00u64) >> 8 <= 255 && rdev & 0x00FFu64 <= 255) by (bit_vector);
        }
        let major = major_wide as u8;
        let minor = minor_wide as u8;
        let ghost orig = devs@;
        let mut rest = devs;
        let mut i: usize = 0;
        while i < rest.len()
            invariant
                i <= rest@.len(),
                rest@ == orig,
                major == spec_rdev_major(rdev),
                minor == spec_rdev_minor(rdev),
                forall|j: int|
                    0 <= j < i ==> !(orig[j].dev_major == major && orig[j].dev_minor == minor),
            decreases rest@.len() - i,
        {
            if rest[i].dev_major == major && rest[i].dev_minor == minor {
                proof {
                    lemma_find_dev_at(orig, major, minor, i as int);
                }
                let d = rest.remove(i);
                return Ok(d);
            }
            i += 1;
        }
        proof {
            lemma_find_dev_at(orig, major, minor, orig.len() as int);
        }
        Err(BlockDevError {  })
    }
}

pub open spec fn spec_rdev_major(rdev: u64) -> u8 {
    ((rdev & 0xFF00u64) >> 8) as u8
}

pub open spec fn spec_rdev_minor(rdev: u64) -> u8 {
    (rdev & 0x00FFu64) as u8
}

/// The `major:minor` pair read from a metadata file's contents, if the
/// trimmed text is two valid 8-bit decimals separated by one colon.
pub open spec fn spec_major_minor(s: Seq<char>) -> Option<(u8, u8)> {
    let t = spec_trim(s);
    match spec_find(t, ':') {
        Some(i) => match (spec_parse_u8(t.subrange(0, i)), spec_parse_u8(
            t.subrange(i + 1, t.len() as int),
        )) {
            (Some(major), Some(minor)) => Some((major, minor)),
            _ => None,
        },
        None => None,
    }
}

/// First catalog record carrying the given identifiers.
pub open spec fn spec_find_dev(s: Seq<BlockDev>, major: u8, minor: u8) -> Option<BlockDev>
    decreases s.len(),
{
    if s.len() == 0 {
        None
    } else if s[0].dev_major == major && s[0].dev_minor == minor {
        Some(s[0])
    } else {
        spec_find_dev(s.drop_first(), major, minor)
    }
}

proof fn lemma_find_dev_at(s: Seq<BlockDev>, major: u8, minor: u8, i: int)
    requires
        0 <= i <= s.len(),
        forall|j: int| 0 <= j < i ==> !(s[j].dev_major == major && s[j].dev_minor == minor),
        i < s.len() ==> s[i].dev_major == major && s[i].dev_minor == minor,
    ensures
        i < s.len() ==> spec_find_dev(s, major, minor) == Some(s[i]),
        i == s.len() ==> spec_find_dev(s, major, minor) is None,
    decreases i + 1,
{
    if s.len() == 0 {
    } else if s[0].dev_major == major && s[0].dev_minor == minor {
        assert(i == 0);
    } else {
        let t = s.drop_first();
        assert(forall|j: int| 0 <= j < i - 1 ==> t[j] == s[j + 1]);
        assert(i < s.len() ==> t[i - 1] == s[i]);
        lemma_find_dev_at(t, major, minor, i - 1);
    }
}

/// The lenient enumeration policy: of the per-entry construction
/// outcomes, the successfully built records, in catalog order; failed
/// entries are skipped, never aborting the walk.
pub open spec fn spec_lenient(s: Seq<Result<BlockDev, BlockDevError>>) -> Seq<BlockDev>
    decreases s.len(),
{
    if s.len() == 0 {
        Seq::empty()
    } else {
        match s[0] {
            Ok(d) => seq![d] + spec_lenient(s.drop_first()),
            Err(_) => spec_lenient(s.drop_first()),
        }
    }
}

/// Applies the skip-and-continue policy of the device enumerator to the
/// per-entry outcomes of one catalog walk.
pub fn lenient_devices(outcomes: Vec<Result<BlockDev, BlockDevError>>) -> (r: Vec<BlockDev>)
    ensures
        r@ == spec_lenient(outcomes@),
{
    let mut v = outcomes;
    let mut out: Vec<BlockDev> = Vec::new();
    proof {
        assert(out@ + spec_lenient(v@) =~= spec_lenient(v@));
    }
    while v.len() > 0
        invariant
            spec_lenient(outcomes@) == out@ + spec_lenient(v@),
        decreases v@.len(),
    {
        let ghost prev = out@;
        let ghost vprev = v@;
        match v.remove(0) {
            Ok(d) => {
                out.push(d);
                proof {
                    assert(v@ =~= vprev.drop_first());
                    assert(prev + spec_lenient(vprev) =~= out@ + spec_lenient(v@));
                }
            },
            Err(_) => {
                proof {
                    assert(v@ =~= vprev.drop_first());
                }
            },
        }
    }
    proof {
        assert(out@ + spec_lenient(v@) =~= out@);
    }
    out
}

} // verus!

verus! {

/// One key=value line folded into the pair of remembered tag values:
/// later occurrences of a tag overwrite earlier ones, unknown tags and
/// lines without an equals sign are ignored.
pub open spec fn spec_kv_step(
    info: (Option<Seq<char>>, Option<Seq<char>>),
    line: Seq<char>,
) -> (Option<Seq<char>>, Option<Seq<char>>) {
    match spec_find(line, '=') {
        Some(i) => {
            let key = line.subrange(0, i);
            let value = line.subrange(i + 1, line.len() as int);
            if key == "USAGE"@ {
                (Some(value), info.1)
            } else if key == "TYPE"@ {
                (info.0, Some(value))
            } else {
                info
            }
        },
        None => info,
    }
}

/// The usage-class and filesystem-type values found in a sequence of
/// key=value lines.
pub open spec fn spec_blkid_fold(lines: Seq<Seq<char>>) -> (Option<Seq<char>>, Option<Seq<char>>)
    decreases lines.len(),
{
    if lines.len() == 0 {
        (None::<Seq<char>>, None::<Seq<char>>)
    } else {
        spec_kv_step(spec_blkid_fold(lines.drop_last()), lines.last())
    }
}

/// What the probe's output classifies to: the reported filesystem type,
/// but only when the reported usage class is exactly `filesystem`; any
/// other usage class, or a missing tag, is a rejection.
pub open spec fn spec_blkid_type(out: Seq<char>) -> Option<Seq<char>> {
    let info = spec_blkid_fold(spec_split_lines(spec_trim(out)));
    if info.0 == Some("filesystem"@) {
        info.1
    } else {
        None
    }
}

/// A probed leaf device together with the filesystem type found on it.
#[derive(Debug)]
pub struct FS {
    pub dev: BlockDev,
    pub fs_type: String,
}

impl FS {
    /// Classifies the probe utility's key=value output.
    #[verifier::loop_isolation(false)]
    pub fn parse_blkid_output(out: String) -> (r: Result<String, BlockDevError>)
        ensures
            match r {
                Ok(t) => spec_blkid_type(out@) == Some(t@),
                Err(_) => spec_blkid_type(out@) is None,
            },
    {
        let trimmed = trim_spaces_and_newline(out.as_str());
        let lines = split_lines(trimmed);
        let mut usage: Option<String> = None;
        let mut fs_type: Option<String> = None;
        let n = lines.len();
        let mut idx: usize = 0;
        proof {
            assert(views_of(lines@).subrange(0, 0) =~= Seq::<Seq<char>>::empty());
        }
        while idx < n
            invariant
                idx <= n,
                n == lines@.len(),
                views_of(lines@) == spec_split_lines(spec_trim(out@)),
                (opt_view(usage), opt_view(fs_type)) == spec_blkid_fold(
                    views_of(lines@).subrange(0, idx as int),
                ),
            decreases n - idx,
        {
            let line: &String = &lines[idx];
            let llen = line.as_str().unicode_len();
            proof {
                assert(views_of(lines@).subrange(0, idx + 1).drop_last() =~= views_of(
                    lines@,
                ).subrange(0, idx as int));
                assert(views_of(lines@).subrange(0, idx + 1).last() == line@);
            }
            match find_char(line.as_str(), '=') {
                Some(i) => {
                    proof {
                        strutil::lemma_find_is_first(line@, '=', i as int);
                    }
                    let key = line.as_str().substring_char(0, i);
                    let value = line.as_str().substring_char(i + 1, llen);
                    if str_eq(key, "USAGE") {
                        usage = Some(value.to_owned());
                    } else if str_eq(key, "TYPE") {
                        fs_type = Some(value.to_owned());
                    }
                },
                None => {},
            }
            idx += 1;
        }
        proof {
            assert(views_of(lines@).subrange(0, n as int) =~= views_of(lines@));
        }
        let u = match usage {
            Some(u) => u,
            None => {
                return Err(BlockDevError {  });
            },
        };
        if !str_eq(u.as_str(), "filesystem") {
            return Err(BlockDevError {  });
        }
        match fs_type {
            Some(t) => Ok(t),
            None => Err(BlockDevError {  }),
        }
    }

    /// Classifies one device from the probe utility's outcome for it:
    /// `probe_output` is the captured output when the utility exited
    /// successfully, and absent when it failed or was never run. A
    /// device with holders or partitions is rejected whatever the
    /// probe said.
    pub fn from_dev(dev: BlockDev, probe_output: Option<String>) -> (r: Result<
        FS,
        BlockDevError,
    >)
        ensures
            match r {
                Ok(fs) => spec_probe_fs(dev, probe_output) == Some((fs.dev, fs.fs_type@)),
                Err(_) => spec_probe_fs(dev, probe_output) is None,
            },
            dev.has_holders ==> r is Err,
            dev.partitions@.len() > 0 ==> r is Err,
            r matches Ok(fs) ==> mount_eligible(fs.dev) && fs.dev == dev,
    {
        if dev.has_holders {
            return Err(BlockDevError {  });
        }
        if dev.partitions.len() > 0 {
            return Err(BlockDevError {  });
        }
        let o = match probe_output {
            Some(o) => o,
            None => {
                return Err(BlockDevError {  });
            },
        };
        match Self::parse_blkid_output(o) {
            Ok(t) => Ok(FS { dev, fs_type: t }),
            Err(e) => Err(e),
        }
    }
}

/// What one device probes to: its record and the found filesystem type
/// when it is mount-eligible and the probe classified it, nothing
/// otherwise.
pub open spec fn spec_probe_fs(dev: BlockDev, probe: Option<String>) -> Option<
    (BlockDev, Seq<char>),
> {
    if mount_eligible(dev) {
        match probe {
            Some(o) => match spec_blkid_type(o@) {
                Some(t) => Some((dev, t)),
                None => None,
            },
            None => None,
        }
    } else {
        None
    }
}

/// The subset of probed devices that classify as filesystems, in input
/// order: a filter, never a reordering.
pub open spec fn spec_get_filesystems(s: Seq<(BlockDev, Option<String>)>) -> Seq<
    (BlockDev, Seq<char>),
>
    decreases s.len(),
{
    if s.len() == 0 {
        Seq::empty()
    } else {
        match spec_probe_fs(s[0].0, s[0].1) {
            Some(p) => seq![p] + spec_get_filesystems(s.drop_first()),
            None => spec_get_filesystems(s.drop_first()),
        }
    }
}

pub open spec fn fs_views(s: Seq<FS>) -> Seq<(BlockDev, Seq<char>)> {
    s.map_values(|f: FS| (f.dev, f.fs_type@))
}

/// Batch probe classification: keeps exactly the devices that probe as
/// filesystems, preserving input order; a device with holders or
/// partitions never becomes a candidate.
#[verifier::loop_isolation(false)]
pub fn get_filesystems(probed: Vec<(BlockDev, Option<String>)>) -> (r: Vec<FS>)
    ensures
        fs_views(r@) == spec_get_filesystems(probed@),
        forall|i: int| 0 <= i < r@.len() ==> mount_eligible(#[trigger] r@[i].dev),
{
    let mut v = probed;
    let mut out: Vec<FS> = Vec::new();
    proof {
        assert(fs_views(out@) =~= Seq::<(BlockDev, Seq<char>)>::empty());
        assert(fs_views(out@) + spec_get_filesystems(v@) =~= spec_get_filesystems(v@));
    }
    while v.len() > 0
        invariant
            spec_get_filesystems(probed@) == fs_views(out@) + spec_get_filesystems(v@),
            forall|i: int| 0 <= i < out@.len() ==> mount_eligible(#[trigger] out@[i].dev),
        decreases v@.len(),
    {
        let ghost vprev = v@;
        let ghost oprev = out@;
        let e = v.remove(0);
        proof {
            assert(v@ =~= vprev.drop_first());
        }
        match FS::from_dev(e.0, e.1) {
            Ok(fs) => {
                let ghost fsd = fs.dev;
                let ghost fst = fs.fs_type@;
                out.push(fs);
                proof {
                    assert(fs_views(out@) =~= fs_views(oprev) + seq![(fsd, fst)]);
                    assert(fs_views(oprev) + (seq![(fsd, fst)] + spec_get_filesystems(v@))
                        =~= fs_views(out@) + spec_get_filesystems(v@));
                }
            },
            Err(_) => {},
        }
    }
    proof {
        assert(fs_views(out@) + spec_get_filesystems(v@) =~= fs_views(out@));
    }
    out
}

/// Arguments of one probe invocation: bypass the cache, print key=value
/// pairs, restrict to the usage-class and filesystem-type tags, then the
/// device node path.
pub fn blkid_args(dev_path: &String) -> (r: Vec<String>)
    ensures
        views_of(r@) == seq![
            "-p"@,
            "-o"@,
            "export"@,
            "-s"@,
            "USAGE"@,
            "-s"@,
            "TYPE"@,
            dev_path@,
        ],
{
    let mut v: Vec<String> = Vec::new();
    v.push(String::from_str("-p"));
    v.push(String::from_str("-o"));
    v.push(String::from_str("export"));
    v.push(String::from_str("-s"));
    v.push(String::from_str("USAGE"));
    v.push(String::from_str("-s"));
    v.push(String::from_str("TYPE"));
    v.push(dev_path.clone());
    proof {
        assert(views_of(v@) =~= seq![
            "-p"@,
            "-o"@,
            "export"@,
            "-s"@,
            "USAGE"@,
            "-s"@,
            "TYPE"@,
            dev_path@,
        ]);
    }
    v
}

/// Arguments of one mount invocation: explicit filesystem type,
/// read-only, source device, destination path.
pub fn mount_args(fs_type: &String, dev_path: &String, mount_path: &String) -> (r: Vec<String>)
    ensures
        views_of(r@) == seq!["-t"@, fs_type@, "-o"@, "ro"@, dev_path@, mount_path@],
{
    let mut v: Vec<String> = Vec::new();
    v.push(String::from_str("-t"));
    v.push(fs_type.clone());
    v.push(String::from_str("-o"));
    v.push(String::from_str("ro"));
    v.push(dev_path.clone());
    v.push(mount_path.clone());
    proof {
        assert(views_of(v@) =~= seq!["-t"@, fs_type@, "-o"@, "ro"@, dev_path@, mount_path@]);
    }
    v
}

/// An acquired mount: the path configuration is read from, and — only
/// when this acquisition created the mount itself — the owned temporary
/// directory that must be cleaned up on release. A reused existing
/// system mount owns nothing and its release never unmounts anything.
#[derive(Debug)]
pub struct Mount {
    temp_dir: Option<String>,
    mount_path: String,
}

impl Mount {
    /// Whether this mount owns a temporary directory (it created the
    /// mount) or reuses an existing system mount.
    pub closed spec fn owns_temp_dir(&self) -> bool {
        self.temp_dir is Some
    }

    pub closed spec fn temp_dir_view(&self) -> Option<Seq<char>> {
        match self.temp_dir {
            Some(s) => Some(s@),
            None => None,
        }
    }

    pub closed spec fn path_view(&self) -> Seq<char> {
        self.mount_path@
    }

    /// Wraps a mount already present in the system mount table; nothing
    /// is owned, so release will be a no-op and the unmount utility is
    /// never invoked for it.
    pub fn from_existing(mount_path: String) -> (m: Mount)
        ensures
            !m.owns_temp_dir(),
            m.path_view() == mount_path@,
    {
        Mount { temp_dir: None, mount_path }
    }

    /// Wraps a mount this run created itself, owning the temporary
    /// directory that holds the mount point.
    pub fn from_new(temp_dir: String, mount_path: String) -> (m: Mount)
        ensures
            m.owns_temp_dir(),
            m.temp_dir_view() == Some(temp_dir@),
            m.path_view() == mount_path@,
    {
        Mount { temp_dir: Some(temp_dir), mount_path }
    }

    /// The path configuration is loaded from.
    pub fn path(&self) -> (r: &String)
        ensures
            r@ == self.path_view(),
    {
        &self.mount_path
    }

    /// Begins release. When the mount is owned, ownership is given up
    /// and the returned path is the one the caller must pass to the
    /// unmount utility; when nothing is owned, nothing is returned and
    /// nothing must be done. After any release the mount owns nothing,
    /// so a second release is always the no-op case: release is
    /// idempotent and the second call cannot fail.
    pub fn umount(&mut self) -> (r: Option<String>)
        ensures
            *final(self) == spec_released(*old(self)),
            opt_view(r) == spec_release_action(*old(self)),
            spec_release_action(*final(self)) is None,
    {
        if self.temp_dir.is_some() {
            self.temp_dir = None;
            Some(self.mount_path.clone())
        } else {
            None
        }
    }
}

/// The unmount action a release performs: the mount path when a
/// temporary directory is owned, nothing otherwise.
pub open spec fn spec_release_action(m: Mount) -> Option<Seq<char>> {
    if m.owns_temp_dir() {
        Some(m.path_view())
    } else {
        None
    }
}

/// The state a release leaves behind: same mount path, no ownership.
pub closed spec fn spec_released(m: Mount) -> Mount {
    Mount { temp_dir: None, mount_path: m.mount_path }
}

/// Release is idempotent: whatever mount a release was applied to, the
/// state it leaves demands no unmount action, so a second release is a
/// no-op that cannot fail, and it leaves the state unchanged.
pub proof fn lemma_release_idempotent(m: Mount)
    ensures
        spec_release_action(spec_released(m)) is None,
        spec_released(spec_released(m)) == spec_released(m),
        spec_released(m).path_view() == m.path_view(),
        !spec_released(m).owns_temp_dir(),
{
}

} // verus!
