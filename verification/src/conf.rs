//! The shape of a parsed boot configuration, as the external
//! configuration-source parser hands it over: global settings and an
//! ordered label mapping, each label naming a boot target. File order of
//! the labels is preserved; it is the tie-break for fallback resolution.

use vstd::prelude::*;

use crate::strutil::str_eq;

verus! {

/// A boot-target kernel file reference: a Linux kernel image this
/// loader can hand off to, or a kernel of some other kind it cannot.
#[derive(Debug)]
pub enum KernelFile {
    Linux(String),
    Other(String),
}

/// View of a kernel file reference.
pub ghost struct KernelFileV {
    pub is_linux: bool,
    pub path: Seq<char>,
}

impl View for KernelFile {
    type V = KernelFileV;

    open spec fn view(&self) -> KernelFileV {
        match self {
            KernelFile::Linux(p) => KernelFileV { is_linux: true, path: p@ },
            KernelFile::Other(p) => KernelFileV { is_linux: false, path: p@ },
        }
    }
}

impl Clone for KernelFile {
    fn clone(&self) -> (r: Self)
        ensures
            r@ == self@,
    {
        match self {
            KernelFile::Linux(p) => KernelFile::Linux(p.clone()),
            KernelFile::Other(p) => KernelFile::Other(p.clone()),
        }
    }
}

/// A kernel boot target: the kernel file, an optional initial ramdisk
/// and an optional kernel append string.
#[derive(Debug)]
pub struct Kernel {
    pub kernel_file: Option<KernelFile>,
    pub initrd: Option<String>,
    pub append: Option<String>,
}

/// View of a kernel boot target.
pub ghost struct KernelV {
    pub kernel_file: Option<KernelFileV>,
    pub initrd: Option<Seq<char>>,
    pub append: Option<Seq<char>>,
}

impl View for Kernel {
    type V = KernelV;

    open spec fn view(&self) -> KernelV {
        KernelV {
            kernel_file: match self.kernel_file {
                Some(kf) => Some(kf@),
                None => None,
            },
            initrd: match self.initrd {
                Some(s) => Some(s@),
                None => None,
            },
            append: match self.append {
                Some(s) => Some(s@),
                None => None,
            },
        }
    }
}

fn clone_opt_string(o: &Option<String>) -> (r: Option<String>)
    ensures
        (r is Some <==> o is Some),
        r matches Some(s) ==> (o matches Some(os) && s@ == os@),
{
    match o {
        Some(s) => Some(s.clone()),
        None => None,
    }
}

impl Clone for Kernel {
    fn clone(&self) -> (r: Self)
        ensures
            r@ == self@,
    {
        Kernel {
            kernel_file: match &self.kernel_file {
                Some(kf) => Some(kf.clone()),
                None => None,
            },
            initrd: clone_opt_string(&self.initrd),
            append: clone_opt_string(&self.append),
        }
    }
}

/// The kind of a label's boot target; this loader knows kernel entries.
#[derive(Debug)]
pub enum KernelOrConfig {
    Kernel(Kernel),
}

/// One named boot-target entry of the configuration.
#[derive(Debug)]
pub struct Label {
    pub kernel_or_config: KernelOrConfig,
}

/// View of a label: its kernel boot target.
pub ghost struct LabelV {
    pub kernel: KernelV,
}

impl View for Label {
    type V = LabelV;

    open spec fn view(&self) -> LabelV {
        match self.kernel_or_config {
            KernelOrConfig::Kernel(k) => LabelV { kernel: k@ },
        }
    }
}

impl Clone for Label {
    fn clone(&self) -> (r: Self)
        ensures
            r@ == self@,
    {
        match self {
            Label { kernel_or_config: KernelOrConfig::Kernel(k) } => Label {
                kernel_or_config: KernelOrConfig::Kernel(k.clone()),
            },
        }
    }
}

/// Unset boot-target fields filled in from the configuration's
/// label-defaults entry; set fields keep their own value.
pub open spec fn spec_apply_defaults(l: LabelV, d: LabelV) -> LabelV {
    LabelV {
        kernel: KernelV {
            kernel_file: if l.kernel.kernel_file is Some {
                l.kernel.kernel_file
            } else {
                d.kernel.kernel_file
            },
            initrd: if l.kernel.initrd is Some {
                l.kernel.initrd
            } else {
                d.kernel.initrd
            },
            append: if l.kernel.append is Some {
                l.kernel.append
            } else {
                d.kernel.append
            },
        },
    }
}

/// The append-override normalization: after the defaults merge, an
/// explicit append value of `-` means "no append string" and becomes
/// absent, distinguishing "inherit default" from "explicitly clear".
pub open spec fn spec_fix_append(l: LabelV) -> LabelV {
    LabelV {
        kernel: KernelV {
            kernel_file: l.kernel.kernel_file,
            initrd: l.kernel.initrd,
            append: if l.kernel.append == Some("-"@) {
                None
            } else {
                l.kernel.append
            },
        },
    }
}

/// A label is supported when its boot target is a kernel entry with a
/// concrete Linux kernel file.
pub open spec fn spec_supported(l: LabelV) -> bool {
    l.kernel.kernel_file matches Some(kf) && kf.is_linux
}

impl Label {
    /// Fills this label's unset boot-target fields from the defaults.
    pub fn apply_defaults(self, defaults: &Label) -> (r: Label)
        ensures
            r@ == spec_apply_defaults(self@, defaults@),
    {
        match self.kernel_or_config {
            KernelOrConfig::Kernel(k) => {
                match &defaults.kernel_or_config {
                    KernelOrConfig::Kernel(dk) => {
                        let kernel_file = match k.kernel_file {
                            Some(kf) => Some(kf),
                            None => match &dk.kernel_file {
                                Some(kf) => Some(kf.clone()),
                                None => None,
                            },
                        };
                        let initrd = match k.initrd {
                            Some(s) => Some(s),
                            None => clone_opt_string(&dk.initrd),
                        };
                        let append = match k.append {
                            Some(s) => Some(s),
                            None => clone_opt_string(&dk.append),
                        };
                        Label {
                            kernel_or_config: KernelOrConfig::Kernel(
                                Kernel { kernel_file, initrd, append },
                            ),
                        }
                    },
                }
            },
        }
    }

    /// Applies the append-override normalization to this label.
    pub fn fix_append(self) -> (r: Label)
        ensures
            r@ == spec_fix_append(self@),
    {
        match self.kernel_or_config {
            KernelOrConfig::Kernel(k) => {
                let append = match k.append {
                    Some(v) => {
                        if str_eq(v.as_str(), "-") {
                            None
                        } else {
                            Some(v)
                        }
                    },
                    None => None,
                };
                Label {
                    kernel_or_config: KernelOrConfig::Kernel(
                        Kernel { kernel_file: k.kernel_file, initrd: k.initrd, append },
                    ),
                }
            },
        }
    }

    /// Whether this label's boot target is a supported kernel entry
    /// with a concrete Linux kernel file.
    pub fn supported(&self) -> (r: bool)
        ensures
            r == spec_supported(self@),
    {
        match &self.kernel_or_config {
            KernelOrConfig::Kernel(k) => match &k.kernel_file {
                Some(KernelFile::Linux(_)) => true,
                Some(KernelFile::Other(_)) => false,
                None => false,
            },
        }
    }
}

/// The ordered label mapping; order is file order and is preserved.
#[derive(Debug)]
pub struct Labels {
    pub entries: Vec<(String, Label)>,
}

impl View for Labels {
    type V = Seq<(Seq<char>, LabelV)>;

    open spec fn view(&self) -> Seq<(Seq<char>, LabelV)> {
        self.entries@.map_values(|e: (String, Label)| (e.0@, e.1@))
    }
}

/// First label stored under the given name, if any.
pub open spec fn spec_lookup(s: Seq<(Seq<char>, LabelV)>, name: Seq<char>) -> Option<LabelV>
    decreases s.len(),
{
    if s.len() == 0 {
        None
    } else if s[0].0 == name {
        Some(s[0].1)
    } else {
        spec_lookup(s.drop_first(), name)
    }
}

pub open spec fn opt_label_view(o: Option<Label>) -> Option<LabelV> {
    match o {
        Some(l) => Some(l@),
        None => None,
    }
}

proof fn lemma_lookup_at(s: Seq<(Seq<char>, LabelV)>, name: Seq<char>, i: int)
    requires
        0 <= i <= s.len(),
        forall|j: int| 0 <= j < i ==> s[j].0 != name,
        i < s.len() ==> s[i].0 == name,
    ensures
        i < s.len() ==> spec_lookup(s, name) == Some(s[i].1),
        i == s.len() ==> spec_lookup(s, name) is None,
    decreases i + 1,
{
    if s.len() == 0 {
    } else if s[0].0 == name {
        assert(i == 0);
    } else {
        let t = s.drop_first();
        assert(forall|j: int| 0 <= j < i - 1 ==> t[j] == s[j + 1]);
        assert(i < s.len() ==> t[i - 1] == s[i]);
        lemma_lookup_at(t, name, i - 1);
    }
}

impl Labels {
    /// Looks a label up by name; a found label is handed out as a copy.
    #[verifier::loop_isolation(false)]
    pub fn get(&self, name: &String) -> (r: Option<Label>)
        ensures
            opt_label_view(r) == spec_lookup(self@, name@),
    {
        let n = self.entries.len();
        let mut i: usize = 0;
        while i < n
            invariant
                i <= n,
                n == self.entries@.len(),
                forall|j: int| 0 <= j < i ==> self@[j].0 != name@,
            decreases n - i,
        {
            if str_eq(self.entries[i].0.as_str(), name.as_str()) {
                proof {
                    lemma_lookup_at(self@, name@, i as int);
                }
                return Some(self.entries[i].1.clone());
            }
            i += 1;
        }
        proof {
            lemma_lookup_at(self@, name@, n as int);
        }
        None
    }

    /// The first label in file order, if any, as a copy.
    pub fn front(&self) -> (r: Option<Label>)
        ensures
            self@.len() == 0 ==> r is None,
            self@.len() > 0 ==> opt_label_view(r) == Some(self@[0].1),
    {
        if self.entries.len() > 0 {
            Some(self.entries[0].1.clone())
        } else {
            None
        }
    }

    /// Number of labels.
    pub fn len(&self) -> (r: usize)
        ensures
            r == self@.len(),
    {
        self.entries.len()
    }
}

/// The global settings of a configuration tree: timeout values in
/// tenths of a second, the configured default / on-timeout / on-error
/// label references, and the label-defaults entry merged into every
/// label.
#[derive(Debug)]
pub struct Global {
    pub timeout: Option<u64>,
    pub total_timeout: Option<u64>,
    pub default: Option<String>,
    pub ontimeout: Option<String>,
    pub onerror: Option<String>,
    pub label_defaults: Label,
}

/// A whole configuration tree as the external parser yields it.
#[derive(Debug)]
pub struct ConfTree {
    pub global: Global,
    pub labels: Labels,
}

} // verus!
