use vstd::prelude::*;
use crate::common::constant::{ENEMY_PATH, ENEMY_URL, PLAYER_PATH, PLAYER_URL};
use crate::utils::decimal::{parse_unsigned, parse_unsigned_u64};

verus! {

/// Whether `c` is white space in Unicode's sense, as `char::is_whitespace`
/// documents it.
pub open spec fn is_white_space(c: char) -> bool {
    let u = c as u32;
    (9 <= u && u <= 13) || u == 32 || u == 0x85 || u == 0xA0 || u == 0x1680 || (0x2000 <= u
        && u <= 0x200A) || u == 0x2028 || u == 0x2029 || u == 0x202F || u == 0x205F || u
        == 0x3000
}

/// Whether `c` is white space.
pub fn white_space(c: char) -> (b: bool)
    ensures
        b == is_white_space(c),
{
    let u = c as u32;
    (9 <= u && u <= 13) || u == 32 || u == 0x85 || u == 0xA0 || u == 0x1680 || (0x2000 <= u
        && u <= 0x200A) || u == 0x2028 || u == 0x2029 || u == 0x202F || u == 0x205F || u
        == 0x3000
}

/// `r` is `s` without its leading and trailing white space.
pub open spec fn is_trim_of(r: Seq<char>, s: Seq<char>) -> bool {
    exists|a: int, b: int|
        {
            &&& 0 <= a <= b <= s.len()
            &&& r == s.subrange(a, b)
            &&& forall|i: int| 0 <= i < a ==> is_white_space(#[trigger] s[i])
            &&& forall|i: int| b <= i < s.len() ==> is_white_space(#[trigger] s[i])
            &&& a < b ==> !is_white_space(s[a]) && !is_white_space(s[b - 1])
        }
}

/// Trimming has one result: two trims of the same text are equal, and
/// trimming a trimmed text changes nothing.
pub proof fn law_trim_is_unique_and_idempotent(r1: Seq<char>, r2: Seq<char>, s: Seq<char>)
    requires
        is_trim_of(r1, s),
        is_trim_of(r2, s),
    ensures
        r1 == r2,
        is_trim_of(r1, r1),
{
    let (a1, b1) = choose|a: int, b: int|
        {
            &&& 0 <= a <= b <= s.len()
            &&& r1 == s.subrange(a, b)
            &&& forall|i: int| 0 <= i < a ==> is_white_space(#[trigger] s[i])
            &&& forall|i: int| b <= i < s.len() ==> is_white_space(#[trigger] s[i])
            &&& a < b ==> !is_white_space(s[a]) && !is_white_space(s[b - 1])
        };
    let (a2, b2) = choose|a: int, b: int|
        {
            &&& 0 <= a <= b <= s.len()
            &&& r2 == s.subrange(a, b)
            &&& forall|i: int| 0 <= i < a ==> is_white_space(#[trigger] s[i])
            &&& forall|i: int| b <= i < s.len() ==> is_white_space(#[trigger] s[i])
            &&& a < b ==> !is_white_space(s[a]) && !is_white_space(s[b - 1])
        };
    if a1 < b1 && a2 < b2 {
        if a1 < a2 {
            assert(is_white_space(s[a1]));
        }
        if a2 < a1 {
            assert(is_white_space(s[a2]));
        }
        if b1 < b2 {
            assert(is_white_space(s[b2 - 1]));
        }
        if b2 < b1 {
            assert(is_white_space(s[b1 - 1]));
        }
    } else if a1 < b1 {
        if a1 < a2 {
            assert(is_white_space(s[a1]));
        } else {
            assert(b2 <= a1);
            assert(is_white_space(s[a1]));
        }
    } else if a2 < b2 {
        if a2 < a1 {
            assert(is_white_space(s[a2]));
        } else {
            assert(b1 <= a2);
            assert(is_white_space(s[a2]));
        }
    } else {
        assert(r1 =~= r2);
    }
    assert(r1 =~= r2);
    let n = r1.len() as int;
    assert(r1 == r1.subrange(0, n));
    if n > 0 {
        assert(r1[0] == s[a1]);
        assert(r1[n - 1] == s[b1 - 1]);
    }
    assert(is_trim_of(r1, r1)) by {
        assert(0 <= 0 <= n <= r1.len() && r1 == r1.subrange(0, n));
    }
}

/// `text` without its leading and trailing white space.
pub fn trim_text(text: &str) -> (r: String)
    ensures
        is_trim_of(r@, text@),
{
    let n = text.unicode_len();
    let mut a: usize = 0;
    while a < n && white_space(text.get_char(a))
        invariant
            n == text@.len(),
            a <= n,
            forall|i: int| 0 <= i < a ==> is_white_space(#[trigger] text@[i]),
        decreases n - a,
    {
        a += 1;
    }
    let mut b: usize = n;
    while b > a && white_space(text.get_char(b - 1))
        invariant
            n == text@.len(),
            a <= b <= n,
            forall|i: int| b <= i < n ==> is_white_space(#[trigger] text@[i]),
        decreases b - a,
    {
        b -= 1;
    }
    let r = text.substring_char(a, b).to_owned();
    proof {
        if a < b {
            assert(!is_white_space(text@[a as int]));
            assert(!is_white_space(text@[b - 1]));
        }
        assert(is_trim_of(r@, text@)) by {
            assert(r@ == text@.subrange(a as int, b as int));
        }
    }
    r
}

/// Reads the menu choice typed by the user (already trimmed): a number that
/// fits in a `u32`, or nothing.
pub fn get_user_choice(input: &str) -> (r: Option<u32>)
    ensures
        match r {
            Some(v) => parse_unsigned(input@, u32::MAX as nat) == Some(v as nat),
            None => parse_unsigned(input@, u32::MAX as nat) is None,
        },
{
    match parse_unsigned_u64(input, u32::MAX as u64) {
        Some(v) => Some(v as u32),
        None => None,
    }
}

/// A model that the game needs on disk.
#[derive(PartialEq, Eq, Structural, Clone, Copy, Debug)]
pub enum ModelAsset {
    Player,
    Enemy,
}

/// Where `asset` is downloaded from.
pub fn model_url(asset: ModelAsset) -> (url: &'static str)
    ensures
        url@ == match asset {
            ModelAsset::Player => PLAYER_URL@,
            ModelAsset::Enemy => ENEMY_URL@,
        },
{
    match asset {
        ModelAsset::Player => PLAYER_URL,
        ModelAsset::Enemy => ENEMY_URL,
    }
}

/// Where `asset` is stored.
pub fn model_path(asset: ModelAsset) -> (path: &'static str)
    ensures
        path@ == match asset {
            ModelAsset::Player => PLAYER_PATH@,
            ModelAsset::Enemy => ENEMY_PATH@,
        },
{
    match asset {
        ModelAsset::Player => PLAYER_PATH,
        ModelAsset::Enemy => ENEMY_PATH,
    }
}

/// The models to download, player first, given whether each is on disk.
pub fn download_models(player_exists: bool, enemy_exists: bool) -> (missing: Vec<ModelAsset>)
    ensures
        missing@ == (if player_exists { seq![] } else { seq![ModelAsset::Player] }) + (if enemy_exists {
            seq![]
        } else {
            seq![ModelAsset::Enemy]
        }),
{
    let mut missing: Vec<ModelAsset> = Vec::new();
    if !player_exists {
        missing.push(ModelAsset::Player);
    }
    if !enemy_exists {
        missing.push(ModelAsset::Enemy);
    }
    assert(missing@ =~= (if player_exists { seq![] } else { seq![ModelAsset::Player] }) + (if enemy_exists {
        seq![]
    } else {
        seq![ModelAsset::Enemy]
    }));
    missing
}

} // verus!
