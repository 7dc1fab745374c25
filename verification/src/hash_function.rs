use vstd::prelude::*;

verus! {

/// The hash functions a tree can be built with.
#[derive(Clone, Copy, Debug, PartialEq, Eq, Structural)]
pub enum HashFunction {
    Sha1,
    Sha224,
    Sha256,
    Sha384,
    Sha512,
}

/// The lower-case form of an ASCII capital; any other character is itself.
pub open spec fn lower_char(c: char) -> char {
    if 'A' <= c && c <= 'Z' {
        ((c as u8) + 32) as char
    } else {
        c
    }
}

/// `s` with every ASCII capital replaced by its lower-case form.
pub open spec fn fold_case(s: Seq<char>) -> Seq<char> {
    Seq::new(s.len(), |i: int| lower_char(s[i]))
}

fn to_lower(c: char) -> (low: char)
    ensures
        low == lower_char(c),
{
    if 'A' <= c && c <= 'Z' {
        let b: u8 = c as u8;
        (b + 32) as char
    } else {
        c
    }
}

/// Whether `name`, case folded, is `lower`.
fn matches_name(name: &str, lower: &str) -> (same: bool)
    ensures
        same == (fold_case(name@) == lower@),
{
    let n: usize = name.unicode_len();
    if n != lower.unicode_len() {
        return false;
    }
    let mut i: usize = 0;
    while i < n
        invariant
            n == name@.len(),
            n == lower@.len(),
            i <= n,
            forall|j: int| 0 <= j < i ==> lower_char(name@[j]) == lower@[j],
        decreases n - i,
    {
        if to_lower(name.get_char(i)) != lower.get_char(i) {
            return false;
        }
        i += 1;
    }
    assert(fold_case(name@) =~= lower@);
    true
}

impl HashFunction {
    /// The function's name, in lower case.
    pub open spec fn name_spec(self) -> Seq<char> {
        match self {
            HashFunction::Sha1 => "sha1"@,
            HashFunction::Sha224 => "sha224"@,
            HashFunction::Sha256 => "sha256"@,
            HashFunction::Sha384 => "sha384"@,
            HashFunction::Sha512 => "sha512"@,
        }
    }

    /// The function that `name` stands for, whatever the case of its letters.
    pub open spec fn parse_spec(name: Seq<char>) -> Option<HashFunction> {
        let folded = fold_case(name);
        if folded == HashFunction::Sha1.name_spec() {
            Some(HashFunction::Sha1)
        } else if folded == HashFunction::Sha224.name_spec() {
            Some(HashFunction::Sha224)
        } else if folded == HashFunction::Sha256.name_spec() {
            Some(HashFunction::Sha256)
        } else if folded == HashFunction::Sha384.name_spec() {
            Some(HashFunction::Sha384)
        } else if folded == HashFunction::Sha512.name_spec() {
            Some(HashFunction::Sha512)
        } else {
            None
        }
    }

    /// The number of bytes in a digest of this function.
    pub open spec fn digest_len(self) -> nat {
        match self {
            HashFunction::Sha1 => 20,
            HashFunction::Sha224 => 28,
            HashFunction::Sha256 => 32,
            HashFunction::Sha384 => 48,
            HashFunction::Sha512 => 64,
        }
    }

    pub fn name(&self) -> (text: &'static str)
        ensures
            text@ == self.name_spec(),
    {
        match self {
            HashFunction::Sha1 => "sha1",
            HashFunction::Sha224 => "sha224",
            HashFunction::Sha256 => "sha256",
            HashFunction::Sha384 => "sha384",
            HashFunction::Sha512 => "sha512",
        }
    }

    pub fn parse(name: &str) -> (found: Option<HashFunction>)
        ensures
            found == HashFunction::parse_spec(name@),
    {
        if matches_name(name, "sha1") {
            Some(HashFunction::Sha1)
        } else if matches_name(name, "sha224") {
            Some(HashFunction::Sha224)
        } else if matches_name(name, "sha256") {
            Some(HashFunction::Sha256)
        } else if matches_name(name, "sha384") {
            Some(HashFunction::Sha384)
        } else if matches_name(name, "sha512") {
            Some(HashFunction::Sha512)
        } else {
            None
        }
    }

    pub fn output_size(&self) -> (n: usize)
        ensures
            n == self.digest_len(),
    {
        match self {
            HashFunction::Sha1 => 20,
            HashFunction::Sha224 => 28,
            HashFunction::Sha256 => 32,
            HashFunction::Sha384 => 48,
            HashFunction::Sha512 => 64,
        }
    }
}

/// Every function is found again under its own name.
pub proof fn lemma_name_parses_back(f: HashFunction)
    ensures
        HashFunction::parse_spec(f.name_spec()) == Some(f),
{
    reveal_strlit("sha1");
    reveal_strlit("sha224");
    reveal_strlit("sha256");
    reveal_strlit("sha384");
    reveal_strlit("sha512");
    let folded = fold_case(f.name_spec());
    assert(folded =~= f.name_spec());
    assert("sha224"@[3] == '2' && "sha256"@[4] == '5' && "sha384"@[3] == '3' && "sha512"@[3] == '5');
}

} // verus!
