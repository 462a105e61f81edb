//! Test suite configurations.
use vstd::prelude::*;

verus! {

/// Identifies a test suite within a run.
pub type Id = u64;

/// The timeout of a test, in seconds, where the configuration gives none.
pub const DEFAULT_TIMEOUT: u64 = 1200;

/// Configuration for a test suite.
pub struct Config {
    /// Name of this suite.
    pub name: String,
    /// Command to execute. The pattern `{}` in this string is replaced with
    /// the path of each test.
    pub cmd: String,
    /// Directory of the expect files; by default each test's own directory.
    pub expect_dir: Option<String>,
    /// Timeout of each test, in seconds.
    pub timeout: u64,
}

/// A test suite: a configuration and the paths of its tests.
pub struct Suite {
    /// Paths of input files.
    pub paths: Vec<String>,
    pub config: Config,
}

#[verifier::external_type_specification]
#[verifier::external_body]
pub struct ExRegex(regex::Regex);

/// Whether the regex matches somewhere in the text.
pub uninterp spec fn regex_matches(re: regex::Regex, text: Seq<char>) -> bool;

/// Relies on `regex::Regex::is_match`: whether the regex matches somewhere
/// in the text, which depends on the regex and the text alone.
#[verifier::external_body]
pub(crate) fn regex_is_match(re: &regex::Regex, text: &str) -> (r: bool)
    ensures
        r == regex_matches(*re, text@),
{
    re.is_match(text)
}

/// The entries of `s` whose flag in `mask` is set, in order.
pub open spec fn select<A>(s: Seq<A>, mask: Seq<bool>) -> Seq<A>
    decreases s.len(),
{
    if s.len() == 0 || mask.len() == 0 {
        Seq::empty()
    } else {
        select(s.drop_last(), mask.drop_last()) + if mask.last() {
            seq![s.last()]
        } else {
            Seq::empty()
        }
    }
}

/// The text that the filters of a run are matched against:
/// `<suite-name>:<path>`.
pub fn filter_label(name: &str, path: &str) -> (r: String)
    ensures
        r@ == name@ + ":"@ + path@,
{
    name.to_owned().concat(":").concat(path)
}

/// Whether a test is kept, given whether the inclusion filter matched it
/// (`None` where there is no inclusion filter) and whether the exclusion filter
/// matched it (`None` where there is none).
pub fn keep_path(incl_hit: Option<bool>, excl_hit: Option<bool>) -> (r: bool)
    ensures
        r == ((incl_hit is None || incl_hit == Some(true)) && excl_hit != Some(true)),
{
    let wanted = match incl_hit {
        Some(hit) => hit,
        None => true,
    };
    let unwanted = match excl_hit {
        Some(hit) => hit,
        None => false,
    };
    wanted && !unwanted
}

/// Whether an optional regex matched the text; `None` where there is no
/// regex.
pub open spec fn hit(re: Option<&regex::Regex>, text: Seq<char>) -> Option<bool> {
    match re {
        Some(r) => Some(regex_matches(*r, text)),
        None => None,
    }
}

/// Whether a test is kept, given whether the inclusion filter matched it
/// and whether the exclusion filter matched it.
pub open spec fn kept_by(incl_hit: Option<bool>, excl_hit: Option<bool>) -> bool {
    (incl_hit is None || incl_hit == Some(true)) && excl_hit != Some(true)
}

/// For each path, whether the filters keep it: they are matched against
/// `<suite-name>:<path>`.
pub open spec fn filter_mask(
    name: Seq<char>,
    paths: Seq<String>,
    incl: Option<&regex::Regex>,
    excl: Option<&regex::Regex>,
) -> Seq<bool> {
    Seq::new(
        paths.len(),
        |i: int| kept_by(hit(incl, name + ":"@ + paths[i]@), hit(excl, name + ":"@ + paths[i]@)),
    )
}

impl Suite {
    /// Keeps the paths whose `<suite-name>:<path>` matches the inclusion regex,
    /// if any, and does not match the exclusion regex, if any, in order.
    pub fn with_filters(self, incl: Option<&regex::Regex>, excl: Option<&regex::Regex>) -> (r: Self)
        ensures
            r.config == self.config,
            r.paths@ == select(self.paths@, filter_mask(self.config.name@, self.paths@, incl, excl)),
            incl is None && excl is None ==> r.paths@ == self.paths@,
    {
        let ghost full = filter_mask(self.config.name@, self.paths@, incl, excl);
        let Suite { paths, config } = self;
        let mut kept: Vec<String> = Vec::new();
        let mut i: usize = 0;
        while i < paths.len()
            invariant
                i <= paths.len(),
                full == filter_mask(config.name@, paths@, incl, excl),
                kept@ == select(paths@.subrange(0, i as int), full.subrange(0, i as int)),
                incl is None && excl is None ==> kept@ == paths@.subrange(0, i as int),
            decreases paths.len() - i,
        {
            let label = filter_label(config.name.as_str(), paths[i].as_str());
            let incl_hit = match incl {
                Some(re) => Some(regex_is_match(re, label.as_str())),
                None => None,
            };
            let excl_hit = match excl {
                Some(re) => Some(regex_is_match(re, label.as_str())),
                None => None,
            };
            let keep = keep_path(incl_hit, excl_hit);
            let ghost pre = paths@.subrange(0, i as int);
            if keep {
                kept.push(paths[i].clone());
            }
            proof {
                let next = paths@.subrange(0, i + 1);
                assert(next.drop_last() =~= pre);
                assert(full.subrange(0, i + 1).drop_last() =~= full.subrange(0, i as int));
                assert(next.last() == paths@[i as int]);
                assert(full[i as int] == keep);
            }
            i = i + 1;
        }
        proof {
            assert(paths@.subrange(0, paths@.len() as int) =~= paths@);
            assert(full.subrange(0, paths@.len() as int) =~= full);
        }
        Suite { paths: kept, config }
    }
}

} // verus!
