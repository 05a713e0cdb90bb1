//! The option parser of the `getopts` crate, as far as the command line of
//! this library uses it.
//!
//! Nothing here is proved: each contract says what the crate's source shows.
use vstd::prelude::*;

use crate::text::{texts, utf8};

verus! {

/// The options that a program can handle: the parser of the crate, held
/// as it is. Nothing is known of one but what the contracts below say.
#[verifier::external_body]
pub struct OptionTable {
    inner: getopts::Options,
}

/// What a command line holds, option by option.
#[verifier::external_type_specification]
#[verifier::external_body]
pub struct ExMatches(getopts::Matches);

/// Why a command line was refused.
#[verifier::external_type_specification]
#[verifier::external_body]
pub struct ExFail(getopts::Fail);

/// One declared option.
pub struct OptDecl {
    /// The name behind one dash: one byte, or empty for none.
    pub short: Seq<char>,
    /// The name behind two dashes: more than one byte, or empty for none.
    pub long: Seq<char>,
    /// The description for the usage text.
    pub desc: Seq<char>,
    /// What stands for the argument in the usage text.
    pub hint: Seq<char>,
    /// Whether the option takes an argument.
    pub takes_arg: bool,
    /// Whether the option may be given more than once.
    pub multi: bool,
}

/// What a command line holds.
pub struct Parsed {
    /// For every name that was declared, the occurrences of its option in
    /// order, each with its argument if it has one.
    pub values: Map<Seq<char>, Seq<Option<Seq<char>>>>,
    /// The arguments that belong to no option, in order.
    pub free: Seq<Seq<char>>,
}

/// The options that were declared, in the order in which they were declared.
pub uninterp spec fn declared(o: OptionTable) -> Seq<OptDecl>;

/// The parser is as it is made: free arguments may stand anywhere, and long
/// options stand behind two dashes.
pub uninterp spec fn plain_style(o: OptionTable) -> bool;

/// What parsing makes of the arguments under the declared options: what the
/// command line holds, or the text of why it was refused.
pub uninterp spec fn parse_outcome(decls: Seq<OptDecl>, args: Seq<Seq<char>>) -> Result<
    Parsed,
    Seq<char>,
>;

/// For every name that was declared, the occurrences of its option on the
/// command line in order, each with its argument if it has one.
pub uninterp spec fn occurrences(m: getopts::Matches) -> Map<Seq<char>, Seq<Option<Seq<char>>>>;

/// The arguments of the command line that belong to no option, in order.
pub uninterp spec fn free_of(m: getopts::Matches) -> Seq<Seq<char>>;

/// What the matches of a command line hold.
pub open spec fn matched(m: getopts::Matches) -> Parsed {
    Parsed { values: occurrences(m), free: free_of(m) }
}

/// The text of a refusal.
pub uninterp spec fn fail_text(f: getopts::Fail) -> Seq<char>;

/// The usage text for the declared options under the line `brief`.
pub uninterp spec fn usage_text(decls: Seq<OptDecl>, brief: Seq<char>) -> Seq<char>;

/// The names are such that an option can be declared with them: the short
/// one a single byte or empty, the long one more than a byte or empty.
pub open spec fn valid_names(short: Seq<char>, long: Seq<char>) -> bool {
    utf8(short).len() <= 1 && utf8(long).len() != 1
}

/// Every declared option has a name.
pub open spec fn all_named(decls: Seq<OptDecl>) -> bool {
    forall|i: int|
        0 <= i < decls.len() ==> (#[trigger] decls[i]).short.len() > 0 || decls[i].long.len() > 0
}

/// Every name of a declared option is known to the matches.
pub open spec fn knows_names(p: Parsed, decls: Seq<OptDecl>) -> bool {
    forall|i: int|
        0 <= i < decls.len() ==> {
            &&& (#[trigger] decls[i]).short.len() > 0 ==> p.values.contains_key(decls[i].short)
            &&& decls[i].long.len() > 0 ==> p.values.contains_key(decls[i].long)
        }
}

/// The arguments among the occurrences of an option, in order.
pub open spec fn arguments(occ: Seq<Option<Seq<char>>>) -> Seq<Seq<char>>
    decreases occ.len(),
{
    if occ.len() == 0 {
        Seq::empty()
    } else {
        match occ.last() {
            Some(v) => arguments(occ.drop_last()).push(v),
            None => arguments(occ.drop_last()),
        }
    }
}

/// `getopts::Options::new` makes a parser with no option declared, in the
/// plain style.
#[verifier::external_body]
pub(crate) fn new_options() -> (o: OptionTable)
    ensures
        declared(o).len() == 0,
        plain_style(o),
{
    OptionTable { inner: getopts::Options::new() }
}

/// `getopts::Options::optflag` declares, behind the options declared so far,
/// an option that takes no argument and is given once at most. It panics on
/// names that are not valid.
#[verifier::external_body]
pub(crate) fn optflag(o: &mut OptionTable, short_name: &str, long_name: &str, desc: &str)
    requires
        valid_names(short_name@, long_name@),
    ensures
        declared(*final(o)) == declared(*old(o)).push(
            OptDecl {
                short: short_name@,
                long: long_name@,
                desc: desc@,
                hint: Seq::empty(),
                takes_arg: false,
                multi: false,
            },
        ),
        plain_style(*final(o)) == plain_style(*old(o)),
{
    o.inner.optflag(short_name, long_name, desc);
}

/// `getopts::Options::optopt` declares, behind the options declared so far,
/// an option that takes an argument and is given once at most. It panics on
/// names that are not valid.
#[verifier::external_body]
pub(crate) fn optopt(
    o: &mut OptionTable,
    short_name: &str,
    long_name: &str,
    desc: &str,
    hint: &str,
)
    requires
        valid_names(short_name@, long_name@),
    ensures
        declared(*final(o)) == declared(*old(o)).push(
            OptDecl {
                short: short_name@,
                long: long_name@,
                desc: desc@,
                hint: hint@,
                takes_arg: true,
                multi: false,
            },
        ),
        plain_style(*final(o)) == plain_style(*old(o)),
{
    o.inner.optopt(short_name, long_name, desc, hint);
}

/// `getopts::Options::optmulti` declares, behind the options declared so
/// far, an option that takes an argument and may be given more than once. It
/// panics on names that are not valid.
#[verifier::external_body]
pub(crate) fn optmulti(
    o: &mut OptionTable,
    short_name: &str,
    long_name: &str,
    desc: &str,
    hint: &str,
)
    requires
        valid_names(short_name@, long_name@),
    ensures
        declared(*final(o)) == declared(*old(o)).push(
            OptDecl {
                short: short_name@,
                long: long_name@,
                desc: desc@,
                hint: hint@,
                takes_arg: true,
                multi: true,
            },
        ),
        plain_style(*final(o)) == plain_style(*old(o)),
{
    o.inner.optmulti(short_name, long_name, desc, hint);
}

/// `getopts::Options::parse` reads the arguments under the declared options.
/// What it returns depends on the options, the style and the arguments
/// alone. Matches that it returns know every name that was declared. It
/// panics where an option was declared without a name.
#[verifier::external_body]
pub(crate) fn parse(o: &OptionTable, args: &[String]) -> (r: Result<
    getopts::Matches,
    getopts::Fail,
>)
    requires
        plain_style(*o),
        all_named(declared(*o)),
    ensures
        match r {
            Ok(m) => parse_outcome(declared(*o), texts(args@)) == Ok::<Parsed, Seq<char>>(
                Parsed { values: occurrences(m), free: free_of(m) },
            ) && knows_names(Parsed { values: occurrences(m), free: free_of(m) }, declared(*o)),
            Err(f) => parse_outcome(declared(*o), texts(args@)) == Err::<Parsed, Seq<char>>(
                fail_text(f),
            ),
        },
{
    o.inner.parse(args)
}

/// `getopts::Matches::opt_present` says whether the option was given. It
/// panics on a name that was not declared.
#[verifier::external_body]
pub(crate) fn opt_present(m: &getopts::Matches, name: &str) -> (r: bool)
    requires
        occurrences(*m).contains_key(name@),
    ensures
        r == (occurrences(*m)[name@].len() > 0),
{
    m.opt_present(name)
}

/// `getopts::Matches::opt_str` returns the argument of the first occurrence
/// of the option, if the option was given and that occurrence has one. It
/// panics on a name that was not declared.
#[verifier::external_body]
pub(crate) fn opt_str(m: &getopts::Matches, name: &str) -> (r: Option<String>)
    requires
        occurrences(*m).contains_key(name@),
    ensures
        match r {
            Some(s) => occurrences(*m)[name@].len() > 0 && occurrences(*m)[name@][0] == Some(s@),
            None => occurrences(*m)[name@].len() == 0 || occurrences(*m)[name@][0] is None,
        },
{
    m.opt_str(name)
}

/// `getopts::Matches::opt_strs` returns the arguments of all occurrences of
/// the option, in order. It panics on a name that was not declared.
#[verifier::external_body]
pub(crate) fn opt_strs(m: &getopts::Matches, name: &str) -> (r: Vec<String>)
    requires
        occurrences(*m).contains_key(name@),
    ensures
        texts(r@) == arguments(occurrences(*m)[name@]),
{
    m.opt_strs(name)
}

/// The field `free` of `getopts::Matches` holds the arguments that belong to
/// no option, in order.
#[verifier::external_body]
pub(crate) fn free_args(m: &getopts::Matches) -> (r: Vec<String>)
    ensures
        texts(r@) == free_of(*m),
{
    m.free.clone()
}

/// The `Display` of `getopts::Fail` gives the text of the refusal.
#[verifier::external_body]
pub(crate) fn fail_message(f: &getopts::Fail) -> (r: String)
    ensures
        r@ == fail_text(*f),
{
    f.to_string()
}

/// `getopts::Options::usage` derives the usage text from the declared
/// options and the line `brief`.
#[verifier::external_body]
pub(crate) fn usage_of(o: &OptionTable, brief: &str) -> (r: String)
    requires
        plain_style(*o),
    ensures
        r@ == usage_text(declared(*o), brief@),
{
    o.inner.usage(brief)
}

} // verus!
