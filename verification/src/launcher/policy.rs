//! Decisions about the cached display policy of one user and one
//! `system_server` lifetime.

use vstd::prelude::*;

use crate::text::{
    append, append_chars, chars_of, decimal, format_number, last_halves, lemma_decimal_word,
    lemma_scan_word, number, parse_number, same, split_last, split_words, text_of, unsigned_digits,
    views, word_scan, words,
};

verus! {

/// One lifetime of the Android framework: its process and when it started.
#[derive(Clone, Copy, Debug, PartialEq, Eq, Structural)]
pub struct FrameworkIdentity {
    /// Process identity of `system_server`.
    pub pid: u32,
    /// Start time of the process, in clock ticks.
    pub start_ticks: u64,
}

/// Identity that a process status names, if it is a live `system_server`.
///
/// The suffix after the process name starts at field three (state); the start
/// time is field 22.
pub open spec fn status_identity(status: Seq<char>, pid: u32) -> Option<FrameworkIdentity> {
    match last_halves(status, ") "@) {
        None => None,
        Some((process, rest)) => {
            let fields = words(rest);
            if process != decimal(pid as int) + " (system_server"@ || fields.len() < 20 {
                None
            } else if fields[0] == "Z"@ || fields[0] == "X"@ || fields[0] == "x"@ {
                None
            } else {
                match number(fields[19], u64::MAX as int) {
                    Some(ticks) => Some(FrameworkIdentity { pid, start_ticks: ticks as u64 }),
                    None => None,
                }
            }
        },
    }
}

/// Identity that a cache record names.
pub open spec fn recorded_identity(record: Seq<char>) -> Option<FrameworkIdentity> {
    let fields = words(record);
    if fields.len() != 2 {
        None
    } else {
        match (number(fields[0], u32::MAX as int), number(fields[1], u64::MAX as int)) {
            (Some(pid), Some(ticks)) => Some(
                FrameworkIdentity { pid: pid as u32, start_ticks: ticks as u64 },
            ),
            _ => None,
        }
    }
}

/// Cache record of an identity.
pub open spec fn identity_record(identity: FrameworkIdentity) -> Seq<char> {
    decimal(identity.pid as int) + " "@ + decimal(identity.start_ticks as int) + "\n"@
}

impl FrameworkIdentity {
    /// Read a process status.
    pub fn read(status: &str, pid: u32) -> (identity: Option<FrameworkIdentity>)
        ensures
            identity == status_identity(status@, pid),
    {
        let (process, rest) = match split_last(&chars_of(status), ") ") {
            Some(pair) => pair,
            None => {
                return None;
            },
        };
        let mut expected = format_number(pid as u64);
        append(&mut expected, " (system_server");
        if !same(&process, &expected) {
            return None;
        }
        let fields = split_words(&rest);
        if fields.len() < 20 {
            return None;
        }
        assert(views(fields@)[0] == fields@[0]@);
        assert(views(fields@)[19] == fields@[19]@);
        let state = &fields[0];
        if same(state, &chars_of("Z")) || same(state, &chars_of("X")) || same(
            state,
            &chars_of("x"),
        ) {
            return None;
        }
        match parse_number(&fields[19], u64::MAX) {
            Some(start_ticks) => Some(FrameworkIdentity { pid, start_ticks }),
            None => None,
        }
    }

    /// Read a cache record.
    pub fn decode(record: &str) -> (identity: Option<FrameworkIdentity>)
        ensures
            identity == recorded_identity(record@),
    {
        let fields = split_words(&chars_of(record));
        if fields.len() != 2 {
            return None;
        }
        assert(views(fields@)[0] == fields@[0]@);
        assert(views(fields@)[1] == fields@[1]@);
        match (parse_number(&fields[0], u32::MAX as u64), parse_number(&fields[1], u64::MAX)) {
            (Some(pid), Some(start_ticks)) => Some(
                FrameworkIdentity { pid: pid as u32, start_ticks },
            ),
            _ => None,
        }
    }

    /// Cache record of this identity.
    pub fn record(self) -> (record: String)
        ensures
            record@ == identity_record(self),
    {
        let mut text = format_number(self.pid as u64);
        append(&mut text, " ");
        append_chars(&mut text, &format_number(self.start_ticks));
        append(&mut text, "\n");
        text_of(&text)
    }
}

/// Why no framework identity is known.
#[derive(Clone, Copy, Debug, PartialEq, Eq, Structural)]
pub enum DiscoveryError {
    /// More than one process claims to be the framework.
    Ambiguous,
    /// No process is the framework.
    Unavailable,
}

/// The framework among the identities that the process table names.
pub open spec fn discovered(found: Seq<FrameworkIdentity>) -> Result<
    FrameworkIdentity,
    DiscoveryError,
> {
    if found.len() == 0 {
        Err(DiscoveryError::Unavailable)
    } else if found.len() == 1 {
        Ok(found[0])
    } else {
        Err(DiscoveryError::Ambiguous)
    }
}

/// Pick the framework among the identities that the process table names.
pub fn discover(found: &Vec<FrameworkIdentity>) -> (result: Result<
    FrameworkIdentity,
    DiscoveryError,
>)
    ensures
        result == discovered(found@),
{
    if found.len() == 0 {
        Err(DiscoveryError::Unavailable)
    } else if found.len() == 1 {
        Ok(found[0])
    } else {
        Err(DiscoveryError::Ambiguous)
    }
}

/// Whether a cache directory can be trusted: a directory of the launcher's own
/// user that nobody else can enter.
pub fn trusted_directory(is_directory: bool, directory_owner: u32, owner: u32, mode: u32) -> (trusted:
    bool)
    ensures
        trusted == (is_directory && directory_owner == owner && mode & 0x3f == 0),
{
    is_directory && directory_owner == owner && mode & 0x3f == 0
}

/// Name of a user's cache record; Android users never share a setup.
pub fn record_name(user: u32) -> (name: String)
    ensures
        name@ == "v2-user-"@ + decimal(user as int),
{
    let mut name = chars_of("v2-user-");
    append_chars(&mut name, &format_number(user as u64));
    text_of(&name)
}

/// Whether a setup was done for the framework that runs now.
pub open spec fn current(
    recorded: Option<FrameworkIdentity>,
    running: Option<FrameworkIdentity>,
) -> bool {
    recorded is Some && recorded == running
}

/// Whether a recorded setup was done for the framework that runs now, under
/// the recorded process identity. A restart of the framework prepares again,
/// also when its process identity is reused.
pub fn prepared(recorded: Option<FrameworkIdentity>, running: Option<FrameworkIdentity>) -> (done:
    bool)
    ensures
        done == current(recorded, running),
{
    match (recorded, running) {
        (Some(recorded), Some(running)) => recorded == running,
        _ => false,
    }
}

/// What the cache knows of one user's setup.
#[derive(Clone, Copy, Debug, PartialEq, Eq, Structural)]
pub struct PolicyCache {
    /// The framework that runs.
    pub framework: FrameworkIdentity,
    /// Whether its setup was done.
    pub prepared: bool,
}

/// Cache with what is recorded, what runs under the recorded process identity,
/// and the identities that the process table names.
pub open spec fn opened(
    recorded: Option<FrameworkIdentity>,
    running: Option<FrameworkIdentity>,
    found: Seq<FrameworkIdentity>,
) -> Result<PolicyCache, DiscoveryError> {
    if current(recorded, running) {
        Ok(PolicyCache { framework: recorded->0, prepared: true })
    } else {
        match discovered(found) {
            Ok(framework) => Ok(PolicyCache { framework, prepared: false }),
            Err(error) => Err(error),
        }
    }
}

/// Whether the setup is left out.
pub open spec fn setup_is_skipped(cache: Option<PolicyCache>) -> bool {
    cache is Some && cache->0.prepared
}

/// Record to publish once the setup ended.
pub open spec fn publication(
    cache: Option<PolicyCache>,
    configured: bool,
    running: Option<FrameworkIdentity>,
) -> Option<Seq<char>> {
    if configured && cache is Some && !cache->0.prepared && current(
        Some(cache->0.framework),
        running,
    ) {
        Some(identity_record(cache->0.framework))
    } else {
        None
    }
}

impl PolicyCache {
    /// Establish the cache of a user. `found` is not read where the record is
    /// current.
    pub fn open(
        recorded: Option<FrameworkIdentity>,
        running: Option<FrameworkIdentity>,
        found: &Vec<FrameworkIdentity>,
    ) -> (result: Result<PolicyCache, DiscoveryError>)
        ensures
            result == opened(recorded, running, found@),
    {
        if let (Some(framework), true) = (recorded, prepared(recorded, running)) {
            return Ok(PolicyCache { framework, prepared: true });
        }
        match discover(found) {
            Ok(framework) => Ok(PolicyCache { framework, prepared: false }),
            Err(error) => Err(error),
        }
    }
}

/// Whether the setup of a user is left out. A cache that cannot be established
/// only costs the setup.
pub fn skips_setup(cache: &Option<PolicyCache>) -> (skipped: bool)
    ensures
        skipped == setup_is_skipped(*cache),
{
    match cache {
        Some(cache) => cache.prepared,
        None => false,
    }
}

/// Record to publish once the setup ended: only for a complete setup of a
/// framework that still runs. `running` is what runs under the framework's
/// process identity now.
pub fn published_record(
    cache: &Option<PolicyCache>,
    configured: bool,
    running: Option<FrameworkIdentity>,
) -> (record: Option<String>)
    ensures
        match (record, publication(*cache, configured, running)) {
            (Some(record), Some(wanted)) => record@ == wanted,
            (None, None) => true,
            _ => false,
        },
{
    match cache {
        Some(cache) => if configured && !cache.prepared && prepared(Some(cache.framework), running) {
            Some(cache.framework.record())
        } else {
            None
        },
        None => None,
    }
}

/// A record that is written for an identity reads back as that identity.
pub proof fn law_record_reads_back(identity: FrameworkIdentity)
    ensures
        recorded_identity(identity_record(identity)) == Some(identity),
{
    let pid = decimal(identity.pid as int);
    let ticks = decimal(identity.start_ticks as int);
    lemma_decimal_word(identity.pid as int);
    lemma_decimal_word(identity.start_ticks as int);
    reveal_strlit(" ");
    reveal_strlit("\n");
    let none = Seq::<char>::empty();
    assert(none + pid =~= pid);
    lemma_scan_word(none, pid);
    assert(word_scan(pid) == (Seq::<Seq<char>>::empty(), pid)) by {
        assert(word_scan(none).1 + pid =~= pid);
    }
    let one = pid + " "@;
    assert(one.drop_last() =~= pid);
    assert(one.last() == ' ');
    assert(word_scan(one) == (seq![pid], none)) by {
        assert(Seq::<Seq<char>>::empty().push(pid) =~= seq![pid]);
    }
    let two = one + ticks;
    lemma_scan_word(one, ticks);
    assert(none + ticks =~= ticks);
    let three = two + "\n"@;
    assert(three.drop_last() =~= two);
    assert(three.last() == '\n');
    assert(word_scan(three) == (seq![pid, ticks], none)) by {
        assert(seq![pid].push(ticks) =~= seq![pid, ticks]);
    }
    assert(identity_record(identity) == three);
    assert(words(three) == seq![pid, ticks]);
    assert(!(pid[0] == '+')) by {
        assert(crate::text::digit(pid[0]));
    }
    assert(!(ticks[0] == '+')) by {
        assert(crate::text::digit(ticks[0]));
    }
    assert(unsigned_digits(pid) == pid);
    assert(unsigned_digits(ticks) == ticks);
}

/// A setup that was done for one lifetime of the framework is never taken for
/// another one, not even for one with the same process identity.
pub proof fn law_setup_is_not_shared(recorded: FrameworkIdentity, running: FrameworkIdentity)
    requires
        recorded.start_ticks != running.start_ticks || recorded.pid != running.pid,
    ensures
        !current(Some(recorded), Some(running)),
{
}

/// A record is published only after a complete setup, by a cache that had none
/// and whose framework still runs.
pub proof fn law_failed_setups_are_not_published(
    cache: Option<PolicyCache>,
    configured: bool,
    running: Option<FrameworkIdentity>,
)
    ensures
        publication(cache, configured, running) is Some ==> {
            &&& configured
            &&& !setup_is_skipped(cache)
            &&& running == Some(cache->0.framework)
        },
{
}

/// What was published makes the next launch skip its setup exactly where the
/// same framework still runs.
pub proof fn law_published_setups_are_skipped(
    cache: Option<PolicyCache>,
    running: Option<FrameworkIdentity>,
    later: Option<FrameworkIdentity>,
    found: Seq<FrameworkIdentity>,
)
    requires
        publication(cache, true, running) is Some,
    ensures
        ({
            let recorded = recorded_identity(publication(cache, true, running)->0);
            let next = opened(recorded, later, found);
            (next is Ok && setup_is_skipped(Some(next->Ok_0))) == (later == Some(cache->0.framework))
        }),
{
    law_record_reads_back(cache->0.framework);
}

/// Law: the running framework is the process of that number that is named
/// `system_server` and lives; its start is the twentieth field behind its name.
pub proof fn law_frameworks_are_living_system_servers(status: Seq<char>, pid: u32)
    ensures
        status_identity(status, pid) matches Some(identity) ==> {
            let (process, rest) = last_halves(status, ") "@)->0;
            &&& identity.pid == pid
            &&& process == decimal(pid as int) + " (system_server"@
            &&& words(rest).len() >= 20
            &&& words(rest)[0] != "Z"@
            &&& words(rest)[0] != "X"@
            &&& words(rest)[0] != "x"@
            &&& number(words(rest)[19], u64::MAX as int) == Some(identity.start_ticks as int)
        },
        last_halves(status, ") "@) is None ==> status_identity(status, pid) is None,
{
    broadcast use crate::text::lemma_number_range;

}

/// Law: a setup is opened for the recorded framework where that one still runs,
/// and is prepared then; for the only one that was found otherwise, unprepared.
pub proof fn law_setups_are_opened_for_one_framework(
    recorded: Option<FrameworkIdentity>,
    running: Option<FrameworkIdentity>,
    found: Seq<FrameworkIdentity>,
)
    ensures
        recorded is Some && recorded == running ==> opened(recorded, running, found) == Ok::<
            PolicyCache,
            DiscoveryError,
        >(PolicyCache { framework: recorded->0, prepared: true }),
        recorded is None || recorded != running ==> {
            &&& found.len() == 0 ==> opened(recorded, running, found) == Err::<
                PolicyCache,
                DiscoveryError,
            >(DiscoveryError::Unavailable)
            &&& found.len() == 1 ==> opened(recorded, running, found) == Ok::<
                PolicyCache,
                DiscoveryError,
            >(PolicyCache { framework: found[0], prepared: false })
            &&& found.len() > 1 ==> opened(recorded, running, found) == Err::<
                PolicyCache,
                DiscoveryError,
            >(DiscoveryError::Ambiguous)
        },
{
}

/// Law: a setup is skipped where it was prepared for the framework that runs, and
/// published by the framework's own numbers once it was configured for it.
pub proof fn law_setups_are_published_once(
    framework: FrameworkIdentity,
    prepared: bool,
    configured: bool,
    running: Option<FrameworkIdentity>,
)
    ensures
        setup_is_skipped(Some(PolicyCache { framework, prepared })) == prepared,
        !setup_is_skipped(None),
        publication(Some(PolicyCache { framework, prepared }), configured, running) is Some <==> {
            &&& configured
            &&& !prepared
            &&& running == Some(framework)
        },
        publication(Some(PolicyCache { framework, prepared }), configured, running) is Some
            ==> publication(Some(PolicyCache { framework, prepared }), configured, running) == Some(
            decimal(framework.pid as int) + " "@ + decimal(framework.start_ticks as int) + "\n"@,
        ),
        publication(None, configured, running) is None,
{
}

} // verus!
