//! Configuration resolution and boot orchestration.
//!
//! The resolver turns a raw configuration tree into one authoritative
//! set of boot targets: defaults are merged into every label, the
//! append override is normalized, unsupported labels are dropped, and
//! the default / on-timeout / on-error labels are resolved with the
//! documented fallback order. The orchestration helpers sort discovery
//! candidates into natural name order, choose the candidate list for a
//! caller-named device, pick the first candidate that yielded a usable
//! configuration, and build the kernel-execution tool's argument lists.

use vstd::prelude::*;

use crate::blockdev::FS;
use crate::blockdev::BlockDev;
use crate::conf::{
    spec_apply_defaults, spec_fix_append, spec_lookup, spec_supported, opt_label_view,
    ConfTree, Label, LabelV, Labels,
};
use crate::strutil::{opt_view, views_of};

verus! {

/// Error of the resolution and boot layer; deliberately carries no
/// detail.
#[derive(Debug)]
pub struct KexLinuxError {}

/// A resolved configuration: the global timeout values, the surviving
/// labels in file order, the always-present on-timeout label, the
/// optional on-error label and the optional resolved default name.
#[derive(Debug)]
pub struct SyslinuxConf {
    pub timeout: Option<u64>,
    pub total_timeout: Option<u64>,
    pub ontimeout: Label,
    pub onerror: Option<Label>,
    pub default_name: Option<String>,
    pub labels: Labels,
}

/// One label taken through the defaults merge and the append
/// normalization.
pub open spec fn spec_resolve_label(l: LabelV, d: LabelV) -> LabelV {
    spec_fix_append(spec_apply_defaults(l, d))
}

/// The surviving labels: every label merged with the defaults and
/// normalized, keeping, in file order, exactly those whose boot target
/// is a supported kernel entry with a concrete kernel file.
pub open spec fn spec_filter_map(d: LabelV, s: Seq<(Seq<char>, LabelV)>) -> Seq<
    (Seq<char>, LabelV),
>
    decreases s.len(),
{
    if s.len() == 0 {
        Seq::empty()
    } else {
        let l2 = spec_resolve_label(s[0].1, d);
        let rest = spec_filter_map(d, s.drop_first());
        if spec_supported(l2) {
            seq![(s[0].0, l2)] + rest
        } else {
            rest
        }
    }
}

/// Lookup of an optional configured name among the survivors.
pub open spec fn spec_opt_lookup(
    s: Seq<(Seq<char>, LabelV)>,
    name: Option<Seq<char>>,
) -> Option<LabelV> {
    match name {
        Some(n) => spec_lookup(s, n),
        None => None,
    }
}

/// The on-timeout fallback chain: the configured on-timeout name, else
/// the configured default, else the first surviving label in file
/// order; nothing when no label survives.
pub open spec fn spec_resolve_ontimeout(
    ontimeout: Option<Seq<char>>,
    dflt: Option<Seq<char>>,
    s: Seq<(Seq<char>, LabelV)>,
) -> Option<LabelV> {
    match spec_opt_lookup(s, ontimeout) {
        Some(l) => Some(l),
        None => match spec_opt_lookup(s, dflt) {
            Some(l) => Some(l),
            None => if s.len() > 0 {
                Some(s[0].1)
            } else {
                None
            },
        },
    }
}

impl SyslinuxConf {
    /// Merges defaults into every label, normalizes the append
    /// override, and drops labels without a supported kernel entry;
    /// the survivors keep their relative file order.
    #[verifier::loop_isolation(false)]
    pub fn filter_map_labels(label_defaults: &Label, labels: Labels) -> (r: Labels)
        ensures
            r@ == spec_filter_map(label_defaults@, labels@),
    {
        let mut v = labels.entries;
        let mut out: Vec<(String, Label)> = Vec::new();
        let ghost orig = v@.map_values(|e: (String, Label)| (e.0@, e.1@));
        let ghost d = label_defaults@;
        proof {
            assert(out@.map_values(|e: (String, Label)| (e.0@, e.1@)) =~= Seq::<
                (Seq<char>, LabelV),
            >::empty());
        }
        while v.len() > 0
            invariant
                spec_filter_map(d, orig) == out@.map_values(|e: (String, Label)| (e.0@, e.1@))
                    + spec_filter_map(d, v@.map_values(|e: (String, Label)| (e.0@, e.1@))),
            decreases v@.len(),
        {
            let ghost vprev = v@.map_values(|e: (String, Label)| (e.0@, e.1@));
            let ghost oprev = out@.map_values(|e: (String, Label)| (e.0@, e.1@));
            let e = v.remove(0);
            proof {
                assert(v@.map_values(|e: (String, Label)| (e.0@, e.1@)) =~= vprev.drop_first());
                assert(vprev[0] == (e.0@, e.1@));
            }
            let merged = e.1.apply_defaults(label_defaults).fix_append();
            if merged.supported() {
                let ghost name_view = e.0@;
                let ghost merged_view = merged@;
                out.push((e.0, merged));
                proof {
                    assert(out@.map_values(|e: (String, Label)| (e.0@, e.1@)) =~= oprev + seq![
                        (name_view, merged_view),
                    ]);
                    assert(oprev + (seq![(name_view, merged_view)] + spec_filter_map(
                        d,
                        v@.map_values(|e: (String, Label)| (e.0@, e.1@)),
                    )) =~= out@.map_values(|e: (String, Label)| (e.0@, e.1@)) + spec_filter_map(
                        d,
                        v@.map_values(|e: (String, Label)| (e.0@, e.1@)),
                    ));
                }
            }
        }
        proof {
            assert(v@.map_values(|e: (String, Label)| (e.0@, e.1@)) =~= Seq::<
                (Seq<char>, LabelV),
            >::empty());
            assert(out@.map_values(|e: (String, Label)| (e.0@, e.1@)) + spec_filter_map(
                d,
                v@.map_values(|e: (String, Label)| (e.0@, e.1@)),
            ) =~= out@.map_values(|e: (String, Label)| (e.0@, e.1@)));
        }
        Labels { entries: out }
    }

    /// Resolves a raw configuration tree. Construction succeeds exactly
    /// when at least one label survives filtering; the resolved
    /// on-timeout label follows the fallback chain, the default name is
    /// kept only when it names a survivor, and the on-error label is
    /// resolved without any fallback.
    pub fn from_conf(conf: ConfTree) -> (r: Result<SyslinuxConf, KexLinuxError>)
        ensures
            ({
                let survivors = spec_filter_map(conf.global.label_defaults@, conf.labels@);
                let dflt = spec_opt_lookup(survivors, opt_view(conf.global.default));
                &&& (r is Ok <==> survivors.len() > 0)
                &&& (r matches Ok(c) ==> {
                    &&& c.labels@ == survivors
                    &&& c.timeout == conf.global.timeout
                    &&& c.total_timeout == conf.global.total_timeout
                    &&& opt_view(c.default_name) == (if dflt is Some {
                        opt_view(conf.global.default)
                    } else {
                        None::<Seq<char>>
                    })
                    &&& Some(c.ontimeout@) == spec_resolve_ontimeout(
                        opt_view(conf.global.ontimeout),
                        opt_view(conf.global.default),
                        survivors,
                    )
                    &&& opt_label_view(c.onerror) == spec_opt_lookup(
                        survivors,
                        opt_view(conf.global.onerror),
                    )
                })
            }),
    {
        let labels = Self::filter_map_labels(&conf.global.label_defaults, conf.labels);
        let default = match &conf.global.default {
            Some(n) => labels.get(n),
            None => None,
        };
        let ontimeout_cand = match &conf.global.ontimeout {
            Some(n) => labels.get(n),
            None => None,
        };
        let onerror = match &conf.global.onerror {
            Some(n) => labels.get(n),
            None => None,
        };
        let default_name = if default.is_some() {
            conf.global.default
        } else {
            None
        };
        let ontimeout = match ontimeout_cand {
            Some(l) => l,
            None => match default {
                Some(l) => l,
                None => match labels.front() {
                    Some(l) => l,
                    None => {
                        return Err(KexLinuxError {  });
                    },
                },
            },
        };
        Ok(
            SyslinuxConf {
                timeout: conf.global.timeout,
                total_timeout: conf.global.total_timeout,
                ontimeout,
                onerror,
                default_name,
                labels,
            },
        )
    }
}

/// With no configured on-timeout reference and no configured default,
/// the on-timeout label resolves to the first surviving label in file
/// order.
pub proof fn lemma_default_default(survivors: Seq<(Seq<char>, LabelV)>)
    requires
        survivors.len() > 0,
    ensures
        spec_resolve_ontimeout(None, None, survivors) == Some(survivors[0].1),
{
}

/// Filtering survives partial invalidity: of a label set holding one
/// label with no kernel file (and none inherited from the defaults)
/// and one valid label, exactly the valid label survives, so
/// resolution succeeds.
pub proof fn lemma_filter_keeps_valid(
    d: LabelV,
    a: (Seq<char>, LabelV),
    b: (Seq<char>, LabelV),
)
    requires
        a.1.kernel.kernel_file is None,
        d.kernel.kernel_file is None,
        spec_supported(spec_resolve_label(b.1, d)),
    ensures
        spec_filter_map(d, seq![a, b]) == seq![(b.0, spec_resolve_label(b.1, d))],
        spec_filter_map(d, seq![a, b]).len() > 0,
{
    reveal_with_fuel(spec_filter_map, 4);
    let s = seq![a, b];
    assert(s[0] == a);
    assert(s.drop_first() =~= seq![b]);
    assert(seq![b][0] == b);
    assert(seq![b].drop_first() =~= Seq::<(Seq<char>, LabelV)>::empty());
    assert(!spec_supported(spec_resolve_label(a.1, d)));
    assert(seq![(b.0, spec_resolve_label(b.1, d))] + Seq::<(Seq<char>, LabelV)>::empty() =~= seq![
        (b.0, spec_resolve_label(b.1, d)),
    ]);
}

/// The kernel-execution tool's load-stage arguments for a label: the
/// mandatory kernel file, then the initial ramdisk if present, then
/// the append string if present; nothing for an unsupported label.
pub open spec fn spec_load_args(l: LabelV) -> Option<Seq<Seq<char>>> {
    match l.kernel.kernel_file {
        Some(kf) => if kf.is_linux {
            let base = seq!["--load"@, kf.path];
            let with_initrd = match l.kernel.initrd {
                Some(i) => base + seq!["--initrd"@, i],
                None => base,
            };
            Some(
                match l.kernel.append {
                    Some(a) => with_initrd + seq!["--append"@, a],
                    None => with_initrd,
                },
            )
        } else {
            None
        },
        None => None,
    }
}

/// After the defaults merge, an explicit append value of `-` is
/// observably identical to an unset append value: normalization maps
/// the label to the same label as its append-free twin, so the
/// load-stage invocation is the same.
pub proof fn lemma_append_dash_like_none(l: LabelV, twin: LabelV)
    requires
        l.kernel.append == Some("-"@),
        twin.kernel.kernel_file == l.kernel.kernel_file,
        twin.kernel.initrd == l.kernel.initrd,
        twin.kernel.append == None::<Seq<char>>,
    ensures
        spec_fix_append(l) == spec_fix_append(twin),
        spec_load_args(spec_fix_append(l)) == spec_load_args(spec_fix_append(twin)),
{
}

/// Builds the load-stage argument list for a label; rejected before
/// any invocation when the label has no supported kernel entry.
pub fn load_kernel_args(label: &Label) -> (r: Result<Vec<String>, KexLinuxError>)
    ensures
        r is Ok <==> spec_supported(label@),
        r matches Ok(v) ==> spec_load_args(label@) == Some(views_of(v@)),
        r is Err ==> spec_load_args(label@) is None,
{
    let k = match &label.kernel_or_config {
        crate::conf::KernelOrConfig::Kernel(k) => k,
    };
    let kernel_file = match &k.kernel_file {
        Some(crate::conf::KernelFile::Linux(p)) => p,
        Some(crate::conf::KernelFile::Other(_)) => {
            return Err(KexLinuxError {  });
        },
        None => {
            return Err(KexLinuxError {  });
        },
    };
    let mut v: Vec<String> = Vec::new();
    v.push(String::from_str("--load"));
    v.push(kernel_file.clone());
    let ghost base = views_of(v@);
    proof {
        assert(base =~= seq!["--load"@, label@.kernel.kernel_file->0.path]);
    }
    match &k.initrd {
        Some(i) => {
            v.push(String::from_str("--initrd"));
            v.push(i.clone());
            proof {
                assert(views_of(v@) =~= base + seq!["--initrd"@, label@.kernel.initrd->0]);
            }
        },
        None => {},
    }
    let ghost with_initrd = views_of(v@);
    match &k.append {
        Some(a) => {
            v.push(String::from_str("--append"));
            v.push(a.clone());
            proof {
                assert(views_of(v@) =~= with_initrd + seq![
                    "--append"@,
                    label@.kernel.append->0,
                ]);
            }
        },
        None => {},
    }
    Ok(v)
}

/// The execute-stage argument list of the kernel-execution tool.
pub fn kexec_args() -> (r: Vec<String>)
    ensures
        views_of(r@) == seq!["--exec"@],
{
    let mut v: Vec<String> = Vec::new();
    v.push(String::from_str("--exec"));
    proof {
        assert(views_of(v@) =~= seq!["--exec"@]);
    }
    v
}

/// What one kernel-execution invocation outcome means: any non-zero
/// exit or signal termination is a hard failure.
pub fn check_kexec_output(success: bool) -> (r: Result<(), KexLinuxError>)
    ensures
        r is Ok <==> success,
{
    if success {
        Ok(())
    } else {
        Err(KexLinuxError {  })
    }
}

/// A configuration-source kind the orchestrator can be pointed at.
#[derive(Debug, PartialEq, Eq, Structural)]
pub enum ConfSourceType {
    SysLinux,
    IsoLinux,
    ExtLinux,
}

/// One discovery strategy of the orchestrator.
#[derive(Debug)]
pub enum Strategy {
    ExplicitPath(String),
    ExplicitType(ConfSourceType),
    Auto,
}

/// The orchestrator's resolution precedence, first satisfied strategy
/// winning: an explicit configuration-file path beats an explicit
/// configuration-source type, which beats auto-detection.
pub fn resolution_strategy(conf_path: Option<String>, conf_type: Option<ConfSourceType>) -> (r:
    Strategy)
    ensures
        conf_path matches Some(p) ==> (r matches Strategy::ExplicitPath(q) && q == p),
        conf_path is None ==> (conf_type matches Some(t) ==> (r matches Strategy::ExplicitType(u)
            && u == t)),
        conf_path is None && conf_type is None ==> r is Auto,
{
    match conf_path {
        Some(p) => Strategy::ExplicitPath(p),
        None => match conf_type {
            Some(t) => Strategy::ExplicitType(t),
            None => Strategy::Auto,
        },
    }
}

/// Natural less-or-equal on strings, as the external natural-order
/// comparison defines it.
pub uninterp spec fn nat_le(a: Seq<char>, b: Seq<char>) -> bool;

/// Relies on natord::compare: a natural-order string comparison whose
/// result is a function of the two strings alone. Its algorithm treats
/// the two sides symmetrically, mirroring Less and Greater when the
/// arguments are swapped, so of any two strings at least one is
/// naturally less-or-equal to the other. `nat_le(a, b)` names
/// "compare(a, b) is not Greater".
#[verifier::external_body]
fn natural_compare(a: &str, b: &str) -> (r: (bool, bool))
    ensures
        r.0 == nat_le(a@, b@),
        r.1 == nat_le(b@, a@),
        r.0 || r.1,
{
    match natord::compare(a, b) {
        std::cmp::Ordering::Less => (true, false),
        std::cmp::Ordering::Equal => (true, true),
        std::cmp::Ordering::Greater => (false, true),
    }
}

/// Every adjacent pair of candidates is in natural name order.
pub open spec fn sorted_by_name(s: Seq<FS>) -> bool {
    forall|i: int| 0 <= i && i + 1 < s.len() ==> nat_le(#[trigger] s[i].dev.name@, s[i + 1].dev.name@)
}

/// Sorts discovery candidates into natural order of their device
/// names, numeric runs compared by value: the result holds exactly the
/// input candidates, with every adjacent pair in natural order, equal
/// names keeping their input order.
pub fn sort_filesystems(fss: Vec<FS>) -> (r: Vec<FS>)
    ensures
        r@.to_multiset() == fss@.to_multiset(),
        sorted_by_name(r@),
{
    broadcast use vstd::seq_lib::group_to_multiset_ensures;

    let mut v = fss;
    let mut out: Vec<FS> = Vec::new();
    while v.len() > 0
        invariant
            out@.to_multiset().add(v@.to_multiset()) =~= fss@.to_multiset(),
            sorted_by_name(out@),
        decreases v@.len(),
    {
        let ghost vprev = v@;
        let ghost oprev = out@;
        let x = v.remove(0);
        let ghost xname = x.dev.name@;
        let mut j: usize = 0;
        loop
            invariant_except_break
                j <= out@.len(),
                out@ == oprev,
                xname == x.dev.name@,
                forall|k: int| 0 <= k < j ==> nat_le(#[trigger] out@[k].dev.name@, xname),
            ensures
                j <= out@.len(),
                out@ == oprev,
                xname == x.dev.name@,
                forall|k: int| 0 <= k < j ==> nat_le(#[trigger] out@[k].dev.name@, xname),
                j < out@.len() ==> nat_le(xname, out@[j as int].dev.name@),
            decreases out@.len() - j,
        {
            if j == out.len() {
                break;
            }
            let le = natural_compare(x.dev.name.as_str(), out[j].dev.name.as_str());
            if le.0 && !le.1 {
                break;
            }
            j += 1;
        }
        out.insert(j, x);
        proof {
            assert(out@ =~= oprev.insert(j as int, x));
            assert forall|i: int| 0 <= i && i + 1 < out@.len() implies nat_le(
                #[trigger] out@[i].dev.name@,
                out@[i + 1].dev.name@,
            ) by {
                if i + 1 < j {
                    assert(out@[i] == oprev[i] && out@[i + 1] == oprev[i + 1]);
                } else if i + 1 == j {
                    assert(out@[i] == oprev[i] && out@[i + 1] == x);
                } else if i == j {
                    assert(out@[i] == x && out@[i + 1] == oprev[i]);
                } else {
                    assert(out@[i] == oprev[i - 1] && out@[i + 1] == oprev[i]);
                }
            }
            assert(v@ =~= vprev.drop_first());
            assert(vprev[0] == x);
            assert(vprev.drop_first() =~= vprev.remove(0));
            vstd::seq_lib::to_multiset_remove(vprev, 0);
            vstd::seq_lib::to_multiset_insert(oprev, j as int, x);
            assert(vprev.remove(0).to_multiset() =~= vprev.to_multiset().remove(x));
            assert(oprev.insert(j as int, x).to_multiset() =~= oprev.to_multiset().insert(x));
            assert(vprev.contains(x));
            vstd::seq_lib::to_multiset_contains(vprev, x);
            assert(vprev.to_multiset().count(x) > 0);
            assert(out@.to_multiset().add(v@.to_multiset()) =~= fss@.to_multiset());
        }
    }
    proof {
        assert(out@.to_multiset().add(v@.to_multiset()) =~= out@.to_multiset());
    }
    out
}

/// The discovery candidates for a caller-named device: its partitions
/// when it has any, else the device itself as the sole candidate.
pub fn discovery_candidates(dev: BlockDev) -> (r: Vec<BlockDev>)
    ensures
        dev.partitions@.len() > 0 ==> r@ == dev.partitions@,
        dev.partitions@.len() == 0 ==> r@ == seq![dev],
{
    if dev.partitions.len() > 0 {
        dev.partitions
    } else {
        let mut v: Vec<BlockDev> = Vec::new();
        v.push(dev);
        v
    }
}

/// The skip-and-continue policy of discovery: of the per-candidate
/// resolution outcomes, in trial order, the first candidate that
/// yielded a resolved configuration, together with its position;
/// nothing when every candidate failed.
#[verifier::loop_isolation(false)]
pub fn first_bootable(confs: Vec<Option<SyslinuxConf>>) -> (r: Option<(usize, SyslinuxConf)>)
    ensures
        r matches Some(p) ==> ({
            &&& p.0 < confs@.len()
            &&& confs@[p.0 as int] matches Some(c) && c == p.1
            &&& forall|j: int| 0 <= j < p.0 ==> confs@[j] is None
        }),
        r is None ==> forall|j: int| 0 <= j < confs@.len() ==> confs@[j] is None,
{
    let n = confs.len();
    let mut v = confs;
    let mut i: usize = 0;
    while i < n
        invariant
            i <= n,
            n == v@.len(),
            v@ == confs@,
            forall|j: int| 0 <= j < i ==> v@[j] is None,
        decreases n - i,
    {
        if v[i].is_some() {
            let c = v.remove(i);
            match c {
                Some(c) => {
                    return Some((i, c));
                },
                None => {
                    proof {
                        assert(false);
                    }
                },
            }
        }
        i += 1;
    }
    None
}

} // verus!
