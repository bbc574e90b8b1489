//! Identifiers of services and clients, and the names of the files in which the
//! configurations of services are kept.

use uuid::Uuid;
use vstd::prelude::*;

verus! {

/// The hexadecimal digit of a value below sixteen, in lower case.
pub open spec fn hex_digit(value: u128) -> char {
    if value < 10 {
        (0x30 + value) as char
    } else {
        (0x57 + value) as char
    }
}

/// The `k`-th of the thirty-two hexadecimal digits of `id`, the most
/// significant first.
pub open spec fn nibble(id: u128, k: int) -> u128 {
    (id >> ((124 - 4 * k) as u128)) & 0xf
}

/// The number of hyphens before position `i` of an identifier's text.
pub open spec fn hyphens_before(i: int) -> int {
    if i <= 8 {
        0
    } else if i <= 13 {
        1
    } else if i <= 18 {
        2
    } else if i <= 23 {
        3
    } else {
        4
    }
}

/// The text of an identifier: its hexadecimal digits in groups of eight, four,
/// four, four and twelve, with hyphens between the groups.
pub open spec fn hyphenated(id: u128) -> Seq<char> {
    Seq::new(
        36,
        |i: int|
            if i == 8 || i == 13 || i == 18 || i == 23 {
                '-'
            } else {
                hex_digit(nibble(id, i - hyphens_before(i)))
            },
    )
}

/// The identifier that `Uuid::parse_str` reads from a text, if it reads one.
pub uninterp spec fn parsed_uuid(text: Seq<char>) -> Option<u128>;

/// `Uuid::parse_str`. It accepts several notations of an identifier, and what
/// it makes of a text depends on that text alone. Among them is the hyphenated
/// one in lower case, of which it gives back the identifier.
#[verifier::external_body]
fn parse_uuid(text: &str) -> (id: Option<u128>)
    ensures
        id == parsed_uuid(text@),
        forall|known: u128| text@ == #[trigger] hyphenated(known) ==> id == Some(known),
{
    match Uuid::parse_str(text) {
        Ok(id) => Some(id.as_u128()),
        Err(_) => None,
    }
}

/// `to_string` of a `Uuid`: the hyphenated notation in lower case.
#[verifier::external_body]
fn uuid_to_string(id: u128) -> (text: String)
    ensures
        text@ == hyphenated(id),
{
    Uuid::from_u128(id).to_string()
}

/// `Uuid::new_v4`: an identifier drawn at random, of which only the version and
/// the variant are fixed.
#[verifier::external_body]
fn new_uuid() -> (id: u128)
    ensures
        is_random_uuid(id),
{
    Uuid::new_v4().as_u128()
}

/// An identifier of the random version and the standard variant.
pub open spec fn is_random_uuid(id: u128) -> bool {
    (id >> 76u128) & 0xf == 4 && (id >> 62u128) & 3 == 2
}

/// The name of the file that keeps the configuration of a service.
pub fn service_file_name(id: u128) -> (name: String)
    ensures
        name@ == hyphenated(id),
{
    uuid_to_string(id)
}

/// The service whose configuration a file of this name keeps, if the name is
/// that of such a file. The name that `service_file_name` gives a service leads
/// back to the service.
pub fn service_of_file(name: &str) -> (id: Option<u128>)
    ensures
        id == parsed_uuid(name@),
        forall|known: u128| name@ == #[trigger] hyphenated(known) ==> id == Some(known),
{
    parse_uuid(name)
}

/// An identifier for a client that just connected.
pub fn new_client_id() -> (id: u128)
    ensures
        is_random_uuid(id),
{
    new_uuid()
}

proof fn lemma_hex_digit_injective(a: u128, b: u128)
    requires
        a < 16,
        b < 16,
        hex_digit(a) == hex_digit(b),
    ensures
        a == b,
{
}

/// Different services keep their configurations in files of different names.
pub proof fn lemma_file_names_differ(a: u128, b: u128)
    requires
        hyphenated(a) == hyphenated(b),
    ensures
        a == b,
{
    assert forall|k: int| 0 <= k < 32 implies nibble(a, k) == nibble(b, k) by {
        let i: int = if k < 8 {
            k
        } else if k < 12 {
            k + 1
        } else if k < 16 {
            k + 2
        } else if k < 20 {
            k + 3
        } else {
            k + 4
        };
        assert(i - hyphens_before(i) == k);
        assert(hyphenated(a)[i] == hex_digit(nibble(a, k)));
        assert(hyphenated(b)[i] == hex_digit(nibble(b, k)));
        let x: u128 = a >> ((124 - 4 * k) as u128);
        let y: u128 = b >> ((124 - 4 * k) as u128);
        assert(x & 0xf < 16) by (bit_vector);
        assert(y & 0xf < 16) by (bit_vector);
        lemma_hex_digit_injective(nibble(a, k), nibble(b, k));
    }
    lemma_nibbles_determine(a, b, 32);
    assert(a >> 0u128 == a) by (bit_vector);
    assert(b >> 0u128 == b) by (bit_vector);
}

/// Two numbers with the same first `n` digits agree above the remaining ones.
proof fn lemma_nibbles_determine(a: u128, b: u128, n: int)
    requires
        1 <= n <= 32,
        forall|k: int| 0 <= k < n ==> nibble(a, k) == nibble(b, k),
    ensures
        a >> ((128 - 4 * n) as u128) == b >> ((128 - 4 * n) as u128),
    decreases n,
{
    let s: u128 = (128 - 4 * n) as u128;
    assert(nibble(a, n - 1) == nibble(b, n - 1));
    if n == 1 {
        assert(a >> 124u128 == b >> 124u128) by (bit_vector)
            requires
                (a >> 124u128) & 0xf == (b >> 124u128) & 0xf,
        ;
    } else {
        lemma_nibbles_determine(a, b, n - 1);
        let t: u128 = (128 - 4 * (n - 1)) as u128;
        assert(a >> s == b >> s) by (bit_vector)
            requires
                (a >> s) & 0xf == (b >> s) & 0xf,
                a >> t == b >> t,
                t == s + 4,
                s <= 120,
        ;
    }
}

/// The value of a hexadecimal digit in lower case.
pub open spec fn digit_value(digit: char) -> int {
    if '0' <= digit <= '9' {
        digit as int - '0' as int
    } else {
        digit as int - 'a' as int + 10
    }
}

/// The number that the first `n` characters of a text stand for, the hyphens
/// left aside.
pub open spec fn number_read(text: Seq<char>, n: int) -> int
    decreases n,
{
    if n <= 0 {
        0
    } else if text[n - 1] == '-' {
        number_read(text, n - 1)
    } else {
        16 * number_read(text, n - 1) + digit_value(text[n - 1])
    }
}

/// What the beginning of an identifier's text stands for: its first digits.
proof fn lemma_number_read(id: u128, n: int)
    requires
        1 <= n <= 36,
    ensures
        number_read(hyphenated(id), n) == id >> ((128 - 4 * (n - hyphens_before(n))) as u128),
    decreases n,
{
    let text = hyphenated(id);
    let i = n - 1;
    if i == 8 || i == 13 || i == 18 || i == 23 {
        lemma_number_read(id, i);
        assert(text[i] == '-');
    } else {
        let k = i - hyphens_before(i);
        let s: u128 = (124 - 4 * k) as u128;
        let digit = nibble(id, k);
        assert((id >> s) & 0xf < 16) by (bit_vector);
        assert(text[i] == hex_digit(digit));
        assert(digit_value(hex_digit(digit)) == digit && hex_digit(digit) != '-');
        assert(n - hyphens_before(n) == k + 1);
        if i == 0 {
            assert(number_read(text, 0) == 0);
            assert((id >> 124u128) & 0xf == id >> 124u128) by (bit_vector);
        } else {
            lemma_number_read(id, i);
            let t: u128 = (s + 4) as u128;
            assert(id >> s == 16 * (id >> t) + ((id >> s) & 0xf)) by (bit_vector)
                requires
                    t == s + 4,
                    s <= 120,
            ;
        }
    }
}

/// The name of the file of a service has thirty-six characters: hexadecimal
/// digits in lower case that stand for the identifier of the service, and
/// hyphens after the eighth, the twelfth, the sixteenth and the twentieth digit.
pub proof fn lemma_file_name_stands_for_service(id: u128, name: String)
    requires
        call_ensures(service_file_name, (id,), name),
    ensures
        name@.len() == 36,
        number_read(name@, 36) == id,
        forall|i: int|
            0 <= i < 36 ==> if i == 8 || i == 13 || i == 18 || i == 23 {
                #[trigger] name@[i] == '-'
            } else {
                '0' <= name@[i] <= '9' || 'a' <= name@[i] <= 'f'
            },
{
    lemma_number_read(id, 36);
    assert(id >> 0u128 == id) by (bit_vector);
    assert forall|i: int| 0 <= i < 36 implies if i == 8 || i == 13 || i == 18 || i == 23 {
        #[trigger] name@[i] == '-'
    } else {
        '0' <= name@[i] <= '9' || 'a' <= name@[i] <= 'f'
    } by {
        let k = i - hyphens_before(i);
        let s: u128 = (124 - 4 * k) as u128;
        assert((id >> s) & 0xf < 16) by (bit_vector);
    }
}

/// The file that a service is saved to is read as the file of this service.
pub proof fn lemma_file_leads_back(id: u128, name: String, text: &str, found: Option<u128>)
    requires
        call_ensures(service_file_name, (id,), name),
        text@ == name@,
        call_ensures(service_of_file, (text,), found),
    ensures
        found == Some(id),
{
}

/// The identifier of a client is a random one: the thirteenth digit of its text
/// is a four, and the seventeenth an eight, a nine, an a or a b.
pub proof fn lemma_client_id_is_random(id: u128)
    requires
        call_ensures(new_client_id, (), id),
    ensures
        hyphenated(id)[14] == '4',
        ({
            let variant = hyphenated(id)[19];
            variant == '8' || variant == '9' || variant == 'a' || variant == 'b'
        }),
{
    assert(hyphenated(id)[14] == hex_digit(nibble(id, 12)));
    assert(hyphenated(id)[19] == hex_digit(nibble(id, 16)));
    assert(nibble(id, 12) == (id >> 76u128) & 0xf);
    assert(nibble(id, 16) == (id >> 60u128) & 0xf);
    assert(8 <= (id >> 60u128) & 0xf <= 11) by (bit_vector)
        requires
            (id >> 62u128) & 3 == 2,
    ;
}

} // verus!
