//! The contract guard: the check, made once before any other call, that the
//! compiled library is the one that the bindings were generated for.

use vstd::prelude::*;
use crate::interface::{Checksum, ComponentInterface};
use crate::template::{
    balanced,
    expand,
    expanded,
    lemma_balanced_concat,
    lemma_expanded_balanced,
    slot_texts,
    TemplateLine,
};
use crate::text::{decimal, decimal_text};
use crate::tokens::{Token, token_models, TokenModel};

verus! {

/// Why the bindings refuse the library.
#[derive(Clone, Copy, Debug, PartialEq, Eq, Structural)]
pub enum InitError {
    /// The library was built for another version of the binary contract.
    VersionMismatch { bindings: u32, scaffolding: u32 },
    /// The library reports another checksum for the declaration at this
    /// place of the checksum table, or none.
    ChecksumMismatch { place: usize },
}

/// What a compiled library reports of itself.
#[derive(Debug, PartialEq, Eq)]
pub struct Library {
    /// The version of the binary contract that it was built for.
    pub contract_version: u32,
    /// The checksums that its checksum functions report, by symbol.
    pub checksums: Vec<Checksum>,
}

/// The checksum that the first of `table` with the symbol `symbol` holds.
pub open spec fn reported(table: Seq<Checksum>, symbol: Seq<char>) -> Option<u16>
    decreases table.len(),
{
    if table.len() == 0 {
        None
    } else if table[0].symbol@ == symbol {
        Some(table[0].expected)
    } else {
        reported(table.drop_first(), symbol)
    }
}

/// Whether the library reports the expected checksum for the declaration
/// at `place` of `expected`.
pub open spec fn checksum_matches(expected: Seq<Checksum>, library: Seq<Checksum>, place: int) -> bool {
    reported(library, expected[place].symbol@) == Some(expected[place].expected)
}

/// The outcome of the check of a library against what the bindings were
/// generated with: the version first, then the checksums in the order of
/// the table.
pub open spec fn contract_outcome(
    version: u32,
    expected: Seq<Checksum>,
    library: Library,
) -> Result<(), InitError> {
    if library.contract_version != version {
        Err(InitError::VersionMismatch { bindings: version, scaffolding: library.contract_version })
    } else if exists|place: int|
        0 <= place < expected.len() && !checksum_matches(expected, library.checksums@, place) {
        let place = choose|place: int|
            0 <= place < expected.len() && !checksum_matches(expected, library.checksums@, place)
                && forall|earlier: int|
                0 <= earlier < place ==> checksum_matches(expected, library.checksums@, earlier);
        Err(InitError::ChecksumMismatch { place: place as usize })
    } else {
        Ok(())
    }
}

/// The checksum that `table` holds for `symbol`.
fn lookup(table: &Vec<Checksum>, symbol: &String) -> (r: Option<u16>)
    ensures
        r == reported(table@, symbol@),
{
    let mut i: usize = 0;
    assert(table@.skip(0) =~= table@);
    while i < table.len()
        invariant
            i <= table.len(),
            reported(table@, symbol@) == reported(table@.skip(i as int), symbol@),
        decreases table.len() - i,
    {
        proof {
            assert(table@.skip(i as int).drop_first() =~= table@.skip(i + 1));
        }
        if table[i].symbol == *symbol {
            return Some(table[i].expected);
        }
        i = i + 1;
    }
    None
}

/// Checks a library against the version and the checksums that the
/// bindings were generated with.
pub fn check_contract(version: u32, expected: &Vec<Checksum>, library: &Library) -> (r: Result<
    (),
    InitError,
>)
    ensures
        r == contract_outcome(version, expected@, *library),
        r is Ok <==> library.contract_version == version && forall|place: int|
            0 <= place < expected@.len() ==> checksum_matches(
                expected@,
                library.checksums@,
                place,
            ),
{
    if library.contract_version != version {
        return Err(
            InitError::VersionMismatch {
                bindings: version,
                scaffolding: library.contract_version,
            },
        );
    }
    let mut place: usize = 0;
    while place < expected.len()
        invariant
            place <= expected.len(),
            library.contract_version == version,
            forall|earlier: int|
                0 <= earlier < place ==> checksum_matches(
                    expected@,
                    library.checksums@,
                    earlier,
                ),
        decreases expected.len() - place,
    {
        let found = lookup(&library.checksums, &expected[place].symbol);
        let matches = match found {
            Some(value) => value == expected[place].expected,
            None => false,
        };
        if !matches {
            proof {
                let p = place as int;
                assert(!checksum_matches(expected@, library.checksums@, p));
                let chosen = choose|c: int|
                    0 <= c < expected@.len() && !checksum_matches(
                        expected@,
                        library.checksums@,
                        c,
                    ) && forall|earlier: int|
                        0 <= earlier < c ==> checksum_matches(
                            expected@,
                            library.checksums@,
                            earlier,
                        );
                assert(chosen == p) by {
                    if chosen < p {
                        assert(checksum_matches(expected@, library.checksums@, chosen));
                    } else if chosen > p {
                        assert(checksum_matches(expected@, library.checksums@, p));
                    }
                }
            }
            return Err(InitError::ChecksumMismatch { place });
        }
        place = place + 1;
    }
    Ok(())
}

/// Where the bindings stand with the library.
#[derive(Clone, Copy, Debug, PartialEq, Eq, Structural)]
pub enum GuardState {
    /// The library was not checked yet.
    Unchecked,
    /// The library passed the check: calls may be made.
    Ready,
    /// The library failed the check: no call may ever be made.
    Failed(InitError),
}

/// The state after an initialization in state `state` whose check, where
/// one is made, ends in `outcome`. The check is made once: a state that is
/// not `Unchecked` stays.
pub open spec fn guard_step(state: GuardState, outcome: Result<(), InitError>) -> GuardState {
    match state {
        GuardState::Unchecked => match outcome {
            Ok(_) => GuardState::Ready,
            Err(e) => GuardState::Failed(e),
        },
        _ => state,
    }
}

/// What an initialization that ends in `state` answers.
pub open spec fn guard_answer(state: GuardState) -> Result<(), InitError> {
    match state {
        GuardState::Failed(e) => Err(e),
        _ => Ok(()),
    }
}

/// The guard of one set of bindings, with what they were generated with.
#[derive(Debug, PartialEq, Eq)]
pub struct ContractGuard {
    version: u32,
    expected: Vec<Checksum>,
    state: GuardState,
}

impl ContractGuard {
    /// The version of the binary contract that the bindings were generated for.
    pub closed spec fn version(&self) -> u32 {
        self.version
    }

    /// The checksums that the bindings were generated with.
    pub closed spec fn expected(&self) -> Seq<Checksum> {
        self.expected@
    }

    /// Where the bindings stand with the library.
    pub closed spec fn state(&self) -> GuardState {
        self.state
    }

    /// A guard that has not checked the library yet.
    pub fn new(version: u32, expected: Vec<Checksum>) -> (guard: Self)
        ensures
            guard.version() == version,
            guard.expected() == expected@,
            guard.state() == GuardState::Unchecked,
    {
        ContractGuard { version, expected, state: GuardState::Unchecked }
    }

    /// Makes sure that the library was checked, and answers whether it
    /// passed. The check is made by the first call only: every later call
    /// answers what the first one found, whatever the library reports then.
    pub fn ensure_initialized(&mut self, library: &Library) -> (r: Result<(), InitError>)
        ensures
            final(self).version() == old(self).version(),
            final(self).expected() == old(self).expected(),
            final(self).state() == guard_step(
                old(self).state(),
                contract_outcome(old(self).version(), old(self).expected(), *library),
            ),
            r == guard_answer(final(self).state()),
    {
        match self.state {
            GuardState::Unchecked => {
                let outcome = check_contract(self.version, &self.expected, library);
                match outcome {
                    Ok(()) => {
                        self.state = GuardState::Ready;
                    },
                    Err(e) => {
                        self.state = GuardState::Failed(e);
                    },
                }
                outcome
            },
            GuardState::Ready => Ok(()),
            GuardState::Failed(e) => Err(e),
        }
    }

    /// Whether calls into the library may be made: only after it passed the check.
    pub fn call_allowed(&self) -> (allowed: bool)
        ensures
            allowed == (self.state() is Ready),
    {
        match self.state {
            GuardState::Ready => true,
            _ => false,
        }
    }
}

/// Initialization is idempotent: once it was run, running it again, against
/// whatever library, changes neither the state nor the answer.
pub proof fn lemma_guard_idempotent(
    state: GuardState,
    first: Result<(), InitError>,
    second: Result<(), InitError>,
)
    ensures
        guard_step(guard_step(state, first), second) == guard_step(state, first),
        guard_answer(guard_step(guard_step(state, first), second)) == guard_answer(
            guard_step(state, first),
        ),
{
}

/// A check that fails leaves bindings that were not checked before in a
/// state in which no call may be made; one that passes leaves them ready.
pub proof fn lemma_guard_decides(outcome: Result<(), InitError>)
    ensures
        guard_step(GuardState::Unchecked, outcome) is Ready <==> outcome is Ok,
        guard_answer(guard_step(GuardState::Unchecked, outcome)) == outcome,
{
    if let Ok(unit) = outcome {
        assert(unit == ());
    }
}

/// The check of the version of the binary contract.
pub const VERSION_CHECK: [TemplateLine; 8] = [
    (0, "void _checkApiVersion() {"),
    (1, "final bindingsVersion = $0;"),
    (1, "final scaffoldingVersion = $1();"),
    (1, "if (bindingsVersion != scaffoldingVersion) {"),
    (
        2,
        "throw UniffiInternalError.panicked(\"UniFFI contract version mismatch: bindings version $$bindingsVersion, scaffolding version $$scaffoldingVersion\");",
    ),
    (1, "}"),
    (0, "}"),
    (0, ""),
];

/// The head of the check of the checksums.
pub const CHECKSUMS_HEAD: [TemplateLine; 1] = [(0, "void _checkApiChecksums() {")];

/// The check of one checksum.
pub const CHECKSUM_CHECK: [TemplateLine; 3] = [
    (1, "if ($0() != $1) {"),
    (2, "throw UniffiInternalError.panicked(\"UniFFI API checksum mismatch\");"),
    (1, "}"),
];

/// The end of the check of the checksums, and the initialization that runs
/// both checks once.
pub const GUARD_TAIL: [TemplateLine; 13] = [
    (0, "}"),
    (0, ""),
    (0, "bool _initialize() {"),
    (1, "_checkApiVersion();"),
    (1, "_checkApiChecksums();"),
    (1, "return true;"),
    (0, "}"),
    (0, ""),
    (0, "final bool _initialized = _initialize();"),
    (0, ""),
    (0, "void ensureInitialized() {"),
    (1, "_initialized;"),
    (0, "}"),
];

/// The tokens of the checks of the checksums before `end`, in the order of
/// the table.
pub open spec fn checksum_checks(checksums: Seq<Checksum>, end: int) -> Seq<TokenModel>
    decreases end,
{
    if end <= 0 {
        Seq::empty()
    } else {
        checksum_checks(checksums, end - 1) + expanded(
            CHECKSUM_CHECK@,
            seq![checksums[end - 1].symbol@, decimal(checksums[end - 1].expected as nat)],
        )
    }
}

/// The tokens of the contract guard of `ci`: the check of the version, the
/// check of every checksum, and the initialization that runs them once.
#[verifier::opaque]
pub open spec fn guard_tokens(ci: ComponentInterface) -> Seq<TokenModel> {
    expanded(
        VERSION_CHECK@,
        seq![decimal(ci.contract_version as nat), ci.contract_version_symbol@],
    ) + expanded(CHECKSUMS_HEAD@, Seq::empty()) + checksum_checks(
        ci.checksums@,
        ci.checksums@.len() as int,
    ) + expanded(GUARD_TAIL@, Seq::empty())
}

/// Appends the contract guard of `ci`.
pub fn render_guard(ci: &ComponentInterface, out: &mut Vec<Token>)
    ensures
        token_models(final(out)@) == token_models(old(out)@) + guard_tokens(*ci),
{
    proof {
        reveal(guard_tokens);
    }
    let ghost start = token_models(out@);
    let mut slots: Vec<String> = Vec::new();
    slots.push(decimal_text(ci.contract_version as u64));
    slots.push(ci.contract_version_symbol.clone());
    assert(slot_texts(slots@) =~= seq![
        decimal(ci.contract_version as nat),
        ci.contract_version_symbol@,
    ]);
    expand(&VERSION_CHECK, &slots, out);
    let none: Vec<String> = Vec::new();
    assert(slot_texts(none@) =~= Seq::<Seq<char>>::empty());
    expand(&CHECKSUMS_HEAD, &none, out);
    let ghost head = token_models(out@);
    let mut i: usize = 0;
    assert(head + checksum_checks(ci.checksums@, 0) =~= head);
    while i < ci.checksums.len()
        invariant
            i <= ci.checksums.len(),
            token_models(out@) == head + checksum_checks(ci.checksums@, i as int),
        decreases ci.checksums.len() - i,
    {
        let mut pair: Vec<String> = Vec::new();
        pair.push(ci.checksums[i].symbol.clone());
        pair.push(decimal_text(ci.checksums[i].expected as u64));
        assert(slot_texts(pair@) =~= seq![
            ci.checksums@[i as int].symbol@,
            decimal(ci.checksums@[i as int].expected as nat),
        ]);
        expand(&CHECKSUM_CHECK, &pair, out);
        i = i + 1;
        assert(token_models(out@) =~= head + checksum_checks(ci.checksums@, i as int));
    }
    expand(&GUARD_TAIL, &none, out);
    assert(token_models(out@) =~= start + guard_tokens(*ci));
}

/// The tokens of the checks of checksums are balanced.
pub proof fn lemma_checksum_checks_balanced(checksums: Seq<Checksum>, end: int)
    ensures
        balanced(checksum_checks(checksums, end)),
    decreases end,
{
    if end > 0 {
        let slots = seq![checksums[end - 1].symbol@, decimal(checksums[end - 1].expected as nat)];
        lemma_checksum_checks_balanced(checksums, end - 1);
        lemma_expanded_balanced(CHECKSUM_CHECK@, slots);
        lemma_balanced_concat(
            checksum_checks(checksums, end - 1),
            expanded(CHECKSUM_CHECK@, slots),
        );
    }
}

/// The tokens of the contract guard are balanced.
pub proof fn lemma_guard_balanced(ci: ComponentInterface)
    ensures
        balanced(guard_tokens(ci)),
{
    reveal(guard_tokens);
    let part0 = expanded(VERSION_CHECK@, seq![decimal(ci.contract_version as nat), ci.contract_version_symbol@]);
    lemma_expanded_balanced(VERSION_CHECK@, seq![decimal(ci.contract_version as nat), ci.contract_version_symbol@]);
    let part1 = expanded(CHECKSUMS_HEAD@, Seq::empty());
    lemma_expanded_balanced(CHECKSUMS_HEAD@, Seq::empty());
    let part2 = checksum_checks(ci.checksums@, ci.checksums@.len() as int);
    lemma_checksum_checks_balanced(ci.checksums@, ci.checksums@.len() as int);
    let part3 = expanded(GUARD_TAIL@, Seq::empty());
    lemma_expanded_balanced(GUARD_TAIL@, Seq::empty());
    let upto0 = part0;
    lemma_balanced_concat(upto0, part1);
    let upto1 = upto0 + part1;
    lemma_balanced_concat(upto1, part2);
    let upto2 = upto1 + part2;
    lemma_balanced_concat(upto2, part3);
    let upto3 = upto2 + part3;
    assert(guard_tokens(ci) =~= upto3);
}

} // verus!
