//! Random passwords that obey the caller's restrictions.

use vstd::prelude::*;
use vstd::seq_lib::{to_multiset_contains, to_multiset_len};
use vstd::string::StringExecFns;

use rand::seq::IndexedRandom;
use rand::seq::SliceRandom;

verus! {

pub const MORE_RESTRINCTIONS_THAN_LENGTH_ERROR: &'static str =
    "There cannot be more restrictions than the desired length.";

pub const NO_RESTRICTION_FOUND_ERROR: &'static str =
    "You must choose at least one password restriction.";

pub const ZERO_LENGTH_ERROR: &'static str = "A password cannot be of length 0.";

/// `a` to `z`.
pub const LOWER_CASE_LETTERS: [u8; 26] = [
    97, 98, 99, 100, 101, 102, 103, 104, 105, 106, 107, 108, 109, 110, 111, 112, 113, 114, 115,
    116, 117, 118, 119, 120, 121, 122,
];

/// `A` to `Z`.
pub const UPPER_CASE_LETTERS: [u8; 26] = [
    65, 66, 67, 68, 69, 70, 71, 72, 73, 74, 75, 76, 77, 78, 79, 80, 81, 82, 83, 84, 85, 86, 87, 88,
    89, 90,
];

/// `0` to `9`.
pub const NUMBERS: [u8; 10] = [48, 49, 50, 51, 52, 53, 54, 55, 56, 57];

/// The printable ASCII characters that are neither letters nor digits nor the space, in
/// ASCII order: `!` to `/`, `:` to `@`, `[` to the backtick, `{` to `~`.
pub const SPECIAL_CHARACTERS: [u8; 32] = [
    33, 34, 35, 36, 37, 38, 39, 40, 41, 42, 43, 44, 45, 46, 47, 58, 59, 60, 61, 62, 63, 64, 91, 92,
    93, 94, 95, 96, 123, 124, 125, 126,
];

/// How long a password is to be and which classes of characters it draws on.
#[derive(Clone, Copy, Debug)]
pub struct PasswordRestriction {
    pub length: usize,
    pub lower_case: bool,
    pub upper_case: bool,
    pub numbers: bool,
    pub special_characters: bool,
}

impl Default for PasswordRestriction {
    fn default() -> (restrictions: Self)
        ensures
            restrictions == (PasswordRestriction {
                length: 0,
                lower_case: false,
                upper_case: false,
                numbers: false,
                special_characters: false,
            }),
    {
        PasswordRestriction {
            length: 0,
            lower_case: false,
            upper_case: false,
            numbers: false,
            special_characters: false,
        }
    }
}

/// Why no password can be generated.
#[derive(Clone, Copy, Debug, PartialEq, Eq, Structural)]
pub enum GeneratorError {
    ZeroLength,
    NoRestriction,
    TooManyRestrictions,
}

impl GeneratorError {
    /// The text shown for the error.
    pub open spec fn message(self) -> Seq<char> {
        match self {
            GeneratorError::ZeroLength => ZERO_LENGTH_ERROR@,
            GeneratorError::NoRestriction => NO_RESTRICTION_FOUND_ERROR@,
            GeneratorError::TooManyRestrictions => MORE_RESTRINCTIONS_THAN_LENGTH_ERROR@,
        }
    }

    pub fn to_string(&self) -> (text: String)
        ensures
            text@ == self.message(),
    {
        match self {
            GeneratorError::ZeroLength => String::from_str(ZERO_LENGTH_ERROR),
            GeneratorError::NoRestriction => String::from_str(NO_RESTRICTION_FOUND_ERROR),
            GeneratorError::TooManyRestrictions => String::from_str(
                MORE_RESTRINCTIONS_THAN_LENGTH_ERROR,
            ),
        }
    }
}

pub open spec fn is_lower_case(byte: u8) -> bool {
    97 <= byte <= 122
}

pub open spec fn is_upper_case(byte: u8) -> bool {
    65 <= byte <= 90
}

pub open spec fn is_number(byte: u8) -> bool {
    48 <= byte <= 57
}

pub open spec fn is_special_character(byte: u8) -> bool {
    33 <= byte <= 47 || 58 <= byte <= 64 || 91 <= byte <= 96 || 123 <= byte <= 126
}

/// Some byte of `bytes` is a lower-case letter.
pub open spec fn has_lower_case(bytes: Seq<u8>) -> bool {
    exists|i: int| 0 <= i < bytes.len() && is_lower_case(#[trigger] bytes[i])
}

/// Some byte of `bytes` is an upper-case letter.
pub open spec fn has_upper_case(bytes: Seq<u8>) -> bool {
    exists|i: int| 0 <= i < bytes.len() && is_upper_case(#[trigger] bytes[i])
}

/// Some byte of `bytes` is a digit.
pub open spec fn has_number(bytes: Seq<u8>) -> bool {
    exists|i: int| 0 <= i < bytes.len() && is_number(#[trigger] bytes[i])
}

/// Some byte of `bytes` is a special character.
pub open spec fn has_special_character(bytes: Seq<u8>) -> bool {
    exists|i: int| 0 <= i < bytes.len() && is_special_character(#[trigger] bytes[i])
}

/// The number of classes that `restrictions` switches on.
pub open spec fn enabled_count(restrictions: PasswordRestriction) -> int {
    (if restrictions.lower_case { 1int } else { 0 }) + (if restrictions.upper_case { 1int } else { 0 })
        + (if restrictions.numbers { 1int } else { 0 })
        + (if restrictions.special_characters { 1int } else { 0 })
}

/// `byte` belongs to a class that `restrictions` switches on.
pub open spec fn allowed(restrictions: PasswordRestriction, byte: u8) -> bool {
    ||| restrictions.lower_case && is_lower_case(byte)
    ||| restrictions.upper_case && is_upper_case(byte)
    ||| restrictions.numbers && is_number(byte)
    ||| restrictions.special_characters && is_special_character(byte)
}

/// Why `restrictions` admit no password, or `None` where they admit one. A length of zero
/// is reported first, then the lack of any class, then a length below the number of classes.
pub open spec fn rejection(restrictions: PasswordRestriction) -> Option<GeneratorError> {
    if restrictions.length == 0 {
        Some(GeneratorError::ZeroLength)
    } else if enabled_count(restrictions) == 0 {
        Some(GeneratorError::NoRestriction)
    } else if restrictions.length < enabled_count(restrictions) {
        Some(GeneratorError::TooManyRestrictions)
    } else {
        None
    }
}

/// Restrictions admit a password exactly where the length is at least the number of classes
/// that are switched on, and at least one class is.
pub proof fn lemma_admitted_restrictions(restrictions: PasswordRestriction)
    ensures
        rejection(restrictions) is None <==> restrictions.length >= enabled_count(restrictions)
            >= 1,
{
}

/// `password` has the length asked for, holds a byte of every class that is switched on,
/// and holds no byte of any other class, nor any byte outside the four classes.
pub open spec fn satisfies(restrictions: PasswordRestriction, password: Seq<u8>) -> bool {
    &&& password.len() == restrictions.length
    &&& forall|i: int| 0 <= i < password.len() ==> allowed(restrictions, #[trigger] password[i])
    &&& restrictions.lower_case <==> has_lower_case(password)
    &&& restrictions.upper_case <==> has_upper_case(password)
    &&& restrictions.numbers <==> has_number(password)
    &&& restrictions.special_characters <==> has_special_character(password)
}

/// `rand::rngs::ThreadRng`: a handle on the random number generator of the current thread.
/// Nothing is known of what is inside.
#[verifier::external_type_specification]
#[verifier::external_body]
pub struct ExThreadRng(rand::rngs::ThreadRng);

/// `rand::rng`: the generator of the current thread. Nothing is known of what it will draw.
#[verifier::external_body]
fn thread_rng() -> rand::rngs::ThreadRng {
    rand::rng()
}

/// `IndexedRandom::choose` of `rand` on a slice of bytes: one of the bytes of `alphabet`,
/// whichever the generator picks, and `None` only where `alphabet` is empty.
#[verifier::external_body]
fn choose_byte(alphabet: &[u8], rng: &mut rand::rngs::ThreadRng) -> (byte: Option<u8>)
    ensures
        alphabet@.len() == 0 ==> byte is None,
        alphabet@.len() > 0 ==> byte is Some && alphabet@.contains(byte->Some_0),
{
    alphabet.choose(rng).copied()
}

/// `SliceRandom::shuffle` of `rand` on a vector of bytes: the same bytes, each as often as
/// before, in whatever order the generator gives them.
#[verifier::external_body]
fn shuffle_bytes(bytes: &mut Vec<u8>, rng: &mut rand::rngs::ThreadRng)
    ensures
        final(bytes)@.to_multiset() == old(bytes)@.to_multiset(),
{
    bytes.shuffle(rng);
}

/// Every byte of the four alphabets is in its class.
pub proof fn lemma_alphabets()
    ensures
        forall|i: int| 0 <= i < 26 ==> is_lower_case(#[trigger] LOWER_CASE_LETTERS@[i]),
        forall|i: int| 0 <= i < 26 ==> is_upper_case(#[trigger] UPPER_CASE_LETTERS@[i]),
        forall|i: int| 0 <= i < 10 ==> is_number(#[trigger] NUMBERS@[i]),
        forall|i: int| 0 <= i < 32 ==> is_special_character(#[trigger] SPECIAL_CHARACTERS@[i]),
{
}

/// Bytes that were reordered still satisfy the restrictions they satisfied before.
pub proof fn lemma_reordering_keeps_satisfied(
    restrictions: PasswordRestriction,
    before: Seq<u8>,
    after: Seq<u8>,
)
    requires
        satisfies(restrictions, before),
        before.to_multiset() == after.to_multiset(),
    ensures
        satisfies(restrictions, after),
{
    to_multiset_len(before);
    to_multiset_len(after);
    assert forall|i: int| 0 <= i < after.len() implies allowed(
        restrictions,
        #[trigger] after[i],
    ) by {
        lemma_reordering_keeps_members(after, before, after[i]);
    }
    lemma_reordering_keeps_classes(before, after);
    lemma_reordering_keeps_classes(after, before);
}

/// A byte of `before` is a byte of any reordering of it.
pub proof fn lemma_reordering_keeps_members(before: Seq<u8>, after: Seq<u8>, byte: u8)
    requires
        before.to_multiset() == after.to_multiset(),
        before.contains(byte),
    ensures
        after.contains(byte),
{
    to_multiset_contains(before, byte);
    to_multiset_contains(after, byte);
}

/// A class that occurs in `before` occurs in any reordering of it.
pub proof fn lemma_reordering_keeps_classes(before: Seq<u8>, after: Seq<u8>)
    requires
        before.to_multiset() == after.to_multiset(),
    ensures
        has_lower_case(before) ==> has_lower_case(after),
        has_upper_case(before) ==> has_upper_case(after),
        has_number(before) ==> has_number(after),
        has_special_character(before) ==> has_special_character(after),
{
    if has_lower_case(before) {
        let i = choose|i: int| 0 <= i < before.len() && is_lower_case(#[trigger] before[i]);
        lemma_reordering_keeps_members(before, after, before[i]);
    }
    if has_upper_case(before) {
        let i = choose|i: int| 0 <= i < before.len() && is_upper_case(#[trigger] before[i]);
        lemma_reordering_keeps_members(before, after, before[i]);
    }
    if has_number(before) {
        let i = choose|i: int| 0 <= i < before.len() && is_number(#[trigger] before[i]);
        lemma_reordering_keeps_members(before, after, before[i]);
    }
    if has_special_character(before) {
        let i = choose|i: int| 0 <= i < before.len() && is_special_character(
            #[trigger] before[i],
        );
        lemma_reordering_keeps_members(before, after, before[i]);
    }
}

/// Appends `bytes` to `out`.
fn append_bytes(out: &mut Vec<u8>, bytes: &[u8])
    ensures
        final(out)@ == old(out)@ + bytes@,
{
    let mut copy = vstd::slice::slice_to_vec(bytes);
    out.append(&mut copy);
}

/// Adds one class to a password under construction: its alphabet joins the characters to
/// draw from, and one character drawn from it joins the password.
fn seed_class(
    charset: &mut Vec<u8>,
    password: &mut Vec<u8>,
    alphabet: &[u8],
    rng: &mut rand::rngs::ThreadRng,
)
    requires
        alphabet@.len() > 0,
    ensures
        final(charset)@ == old(charset)@ + alphabet@,
        final(password)@.len() == old(password)@.len() + 1,
        final(password)@.drop_last() == old(password)@,
        alphabet@.contains(final(password)@.last()),
{
    append_bytes(charset, alphabet);
    match choose_byte(alphabet, rng) {
        Some(byte) => {
            password.push(byte);
        },
        None => {},
    }
}

/// A password for `restrictions`, or the reason why there is none. Which password comes
/// out is left to the random number generator; every outcome satisfies the restrictions.
pub fn generate(restrictions: &PasswordRestriction) -> (password: Result<Vec<u8>, GeneratorError>)
    ensures
        match password {
            Ok(password) => rejection(*restrictions) is None && satisfies(
                *restrictions,
                password@,
            ),
            Err(error) => rejection(*restrictions) == Some(error),
        },
{
    if restrictions.length == 0 {
        return Err(GeneratorError::ZeroLength);
    }
    let mut rng = thread_rng();
    let mut charset: Vec<u8> = Vec::new();
    let mut password: Vec<u8> = Vec::new();
    let mut count: usize = 0;
    proof {
        lemma_alphabets();
    }
    if restrictions.lower_case {
        seed_class(&mut charset, &mut password, LOWER_CASE_LETTERS.as_slice(), &mut rng);
        count = count + 1;
    }
    let ghost seeded_lower = password@;
    if restrictions.upper_case {
        seed_class(&mut charset, &mut password, UPPER_CASE_LETTERS.as_slice(), &mut rng);
        count = count + 1;
    }
    let ghost seeded_upper = password@;
    if restrictions.numbers {
        seed_class(&mut charset, &mut password, NUMBERS.as_slice(), &mut rng);
        count = count + 1;
    }
    let ghost seeded_numbers = password@;
    if restrictions.special_characters {
        seed_class(&mut charset, &mut password, SPECIAL_CHARACTERS.as_slice(), &mut rng);
        count = count + 1;
    }
    let ghost seeded = password@;
    assert(count == enabled_count(*restrictions));
    assert(seeded.len() == count);
    if restrictions.length < count {
        return Err(GeneratorError::TooManyRestrictions);
    }
    if charset.len() == 0 {
        return Err(GeneratorError::NoRestriction);
    }
    proof {
        assert forall|i: int| 0 <= i < charset@.len() implies allowed(
            *restrictions,
            #[trigger] charset@[i],
        ) by {
            lemma_charset_allowed(*restrictions, charset@, i);
        }
        assert forall|i: int| 0 <= i < seeded.len() implies allowed(
            *restrictions,
            #[trigger] seeded[i],
        ) by {
            lemma_seeds_allowed(
                *restrictions,
                seeded_lower,
                seeded_upper,
                seeded_numbers,
                seeded,
                i,
            );
        }
        lemma_seeds_cover(*restrictions, seeded_lower, seeded_upper, seeded_numbers, seeded);
    }
    while password.len() < restrictions.length
        invariant
            count <= password.len() <= restrictions.length,
            seeded.len() == count,
            password@.take(count as int) == seeded,
            charset@.len() > 0,
            forall|i: int| 0 <= i < charset@.len() ==> allowed(*restrictions, #[trigger] charset@[i]),
            forall|i: int| 0 <= i < password@.len() ==> allowed(*restrictions, #[trigger] password@[i]),
        decreases restrictions.length - password.len(),
    {
        let ghost so_far = password@;
        match choose_byte(charset.as_slice(), &mut rng) {
            Some(byte) => {
                password.push(byte);
                assert(password@.take(count as int) == so_far.take(count as int));
            },
            None => {},
        }
    }
    proof {
        lemma_prefix_classes(*restrictions, seeded, password@);
    }
    let ghost unshuffled = password@;
    shuffle_bytes(&mut password, &mut rng);
    proof {
        lemma_reordering_keeps_satisfied(*restrictions, unshuffled, password@);
    }
    Ok(password)
}

/// The characters to draw from are the alphabets of the classes that are switched on.
proof fn lemma_charset_allowed(restrictions: PasswordRestriction, charset: Seq<u8>, i: int)
    requires
        0 <= i < charset.len(),
        charset == (if restrictions.lower_case {
            LOWER_CASE_LETTERS@
        } else {
            Seq::empty()
        }) + (if restrictions.upper_case {
            UPPER_CASE_LETTERS@
        } else {
            Seq::empty()
        }) + (if restrictions.numbers {
            NUMBERS@
        } else {
            Seq::empty()
        }) + (if restrictions.special_characters {
            SPECIAL_CHARACTERS@
        } else {
            Seq::empty()
        }),
    ensures
        allowed(restrictions, charset[i]),
{
    lemma_alphabets();
}

/// Each seed is of a class that is switched on.
proof fn lemma_seeds_allowed(
    restrictions: PasswordRestriction,
    seeded_lower: Seq<u8>,
    seeded_upper: Seq<u8>,
    seeded_numbers: Seq<u8>,
    seeded: Seq<u8>,
    i: int,
)
    requires
        seeds(restrictions, seeded_lower, seeded_upper, seeded_numbers, seeded),
        0 <= i < seeded.len(),
    ensures
        allowed(restrictions, seeded[i]),
{
    lemma_alphabets();
    if i < seeded_lower.len() {
        assert(seeded[i] == seeded_lower.last());
    } else if i < seeded_upper.len() {
        assert(seeded[i] == seeded_upper.last());
    } else if i < seeded_numbers.len() {
        assert(seeded[i] == seeded_numbers.last());
    } else {
        assert(seeded[i] == seeded.last());
    }
}

/// The passwords after each of the four seeding steps: a step whose class is switched on
/// appends one byte of its alphabet, and another step changes nothing.
pub open spec fn seeds(
    restrictions: PasswordRestriction,
    seeded_lower: Seq<u8>,
    seeded_upper: Seq<u8>,
    seeded_numbers: Seq<u8>,
    seeded: Seq<u8>,
) -> bool {
    &&& seed_step(restrictions.lower_case, LOWER_CASE_LETTERS@, Seq::empty(), seeded_lower)
    &&& seed_step(restrictions.upper_case, UPPER_CASE_LETTERS@, seeded_lower, seeded_upper)
    &&& seed_step(restrictions.numbers, NUMBERS@, seeded_upper, seeded_numbers)
    &&& seed_step(restrictions.special_characters, SPECIAL_CHARACTERS@, seeded_numbers, seeded)
}

/// One seeding step.
pub open spec fn seed_step(enabled: bool, alphabet: Seq<u8>, before: Seq<u8>, after: Seq<u8>) -> bool {
    if enabled {
        &&& after.len() == before.len() + 1
        &&& after.drop_last() == before
        &&& alphabet.contains(after.last())
    } else {
        after == before
    }
}

/// After seeding, exactly the classes that are switched on occur.
proof fn lemma_seeds_cover(
    restrictions: PasswordRestriction,
    seeded_lower: Seq<u8>,
    seeded_upper: Seq<u8>,
    seeded_numbers: Seq<u8>,
    seeded: Seq<u8>,
)
    requires
        seeds(restrictions, seeded_lower, seeded_upper, seeded_numbers, seeded),
    ensures
        restrictions.lower_case ==> has_lower_case(seeded),
        restrictions.upper_case ==> has_upper_case(seeded),
        restrictions.numbers ==> has_number(seeded),
        restrictions.special_characters ==> has_special_character(seeded),
{
    lemma_alphabets();
    if restrictions.lower_case {
        let k = seeded_lower.len() - 1;
        assert(seeded_upper[k] == seeded_lower.last()) by {
            if restrictions.upper_case {
                assert(seeded_upper.drop_last()[k] == seeded_upper[k]);
            }
        }
        assert(seeded_numbers[k] == seeded_upper[k]) by {
            if restrictions.numbers {
                assert(seeded_numbers.drop_last()[k] == seeded_numbers[k]);
            }
        }
        assert(seeded[k] == seeded_numbers[k]) by {
            if restrictions.special_characters {
                assert(seeded.drop_last()[k] == seeded[k]);
            }
        }
        assert(is_lower_case(seeded[k]));
    }
    if restrictions.upper_case {
        let k = seeded_upper.len() - 1;
        assert(seeded_numbers[k] == seeded_upper.last()) by {
            if restrictions.numbers {
                assert(seeded_numbers.drop_last()[k] == seeded_numbers[k]);
            }
        }
        assert(seeded[k] == seeded_numbers[k]) by {
            if restrictions.special_characters {
                assert(seeded.drop_last()[k] == seeded[k]);
            }
        }
        assert(is_upper_case(seeded[k]));
    }
    if restrictions.numbers {
        let k = seeded_numbers.len() - 1;
        assert(seeded[k] == seeded_numbers.last()) by {
            if restrictions.special_characters {
                assert(seeded.drop_last()[k] == seeded[k]);
            }
        }
        assert(is_number(seeded[k]));
    }
    if restrictions.special_characters {
        assert(is_special_character(seeded[seeded.len() - 1]));
    }
}

/// A password that begins with seeds of every class that is switched on, holds only allowed
/// bytes and has the right length satisfies the restrictions.
proof fn lemma_prefix_classes(restrictions: PasswordRestriction, seeded: Seq<u8>, password: Seq<u8>)
    requires
        seeded.len() <= password.len(),
        password.take(seeded.len() as int) == seeded,
        password.len() == restrictions.length,
        forall|i: int| 0 <= i < password.len() ==> allowed(restrictions, #[trigger] password[i]),
        restrictions.lower_case ==> has_lower_case(seeded),
        restrictions.upper_case ==> has_upper_case(seeded),
        restrictions.numbers ==> has_number(seeded),
        restrictions.special_characters ==> has_special_character(seeded),
    ensures
        satisfies(restrictions, password),
{
    if restrictions.lower_case {
        let i = choose|i: int| 0 <= i < seeded.len() && is_lower_case(#[trigger] seeded[i]);
        assert(password[i] == seeded[i]);
    }
    if restrictions.upper_case {
        let i = choose|i: int| 0 <= i < seeded.len() && is_upper_case(#[trigger] seeded[i]);
        assert(password[i] == seeded[i]);
    }
    if restrictions.numbers {
        let i = choose|i: int| 0 <= i < seeded.len() && is_number(#[trigger] seeded[i]);
        assert(password[i] == seeded[i]);
    }
    if restrictions.special_characters {
        let i = choose|i: int| 0 <= i < seeded.len() && is_special_character(
            #[trigger] seeded[i],
        );
        assert(password[i] == seeded[i]);
    }
}

/// The interface of a password generator.
pub trait PasswordGenerator {
    /// What the generator promises of a password that it hands out for `restrictions`.
    /// Unless a generator says otherwise, it promises nothing.
    open spec fn accepts(restrictions: PasswordRestriction, password: Seq<u8>) -> bool {
        true
    }

    /// What the generator promises of the text with which it declines `restrictions`.
    /// Unless a generator says otherwise, it promises nothing.
    open spec fn declines(restrictions: PasswordRestriction, text: Seq<char>) -> bool {
        true
    }

    /// A password for `restrictions`, or the text of the reason why there is none.
    fn generate_password(restrictions: &PasswordRestriction) -> (password: Result<Vec<u8>, String>)
        ensures
            password is Ok ==> Self::accepts(*restrictions, password->Ok_0@),
            password is Err ==> Self::declines(*restrictions, password->Err_0@),
    ;
}

/// The generator that draws from the random number generator of the current thread, which
/// is seeded by the operating system.
pub struct SecurePasswordGenerator {}

impl PasswordGenerator for SecurePasswordGenerator {
    /// A password is handed out only for restrictions that admit one, and satisfies them.
    open spec fn accepts(restrictions: PasswordRestriction, password: Seq<u8>) -> bool {
        rejection(restrictions) is None && satisfies(restrictions, password)
    }

    /// Restrictions are declined only where they admit no password, with the text of the
    /// reason.
    open spec fn declines(restrictions: PasswordRestriction, text: Seq<char>) -> bool {
        rejection(restrictions) is Some && text == rejection(restrictions)->Some_0.message()
    }

    /// A password that satisfies `restrictions`, or the text of the reason why there is none.
    fn generate_password(restrictions: &PasswordRestriction) -> (password: Result<Vec<u8>, String>)
        ensures
            match password {
                Ok(password) => rejection(*restrictions) is None && satisfies(
                    *restrictions,
                    password@,
                ),
                Err(text) => rejection(*restrictions) is Some && text@ == rejection(
                    *restrictions,
                )->Some_0.message(),
            },
    {
        match generate(restrictions) {
            Ok(password) => Ok(password),
            Err(error) => Err(error.to_string()),
        }
    }
}

} // verus!
