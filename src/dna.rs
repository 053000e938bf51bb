//! Nucleotide alphabet, reverse complement and strand variants.

use vstd::prelude::*;

verus! {

/// True for the four nucleotides `A`, `C`, `G` and `T`.
pub open spec fn is_base(c: char) -> bool {
    c == 'A' || c == 'C' || c == 'G' || c == 'T'
}

/// Every character of `s` is a nucleotide.
pub open spec fn is_dna(s: Seq<char>) -> bool {
    forall|i: int| 0 <= i < s.len() ==> #[trigger] is_base(s[i])
}

/// The pairing base: A and T pair, C and G pair.
pub open spec fn complement(c: char) -> char {
    if c == 'A' {
        'T'
    } else if c == 'T' {
        'A'
    } else if c == 'C' {
        'G'
    } else if c == 'G' {
        'C'
    } else {
        c
    }
}

/// The sequence read backwards, each base replaced by its pairing base.
pub open spec fn revcomp(s: Seq<char>) -> Seq<char> {
    Seq::new(s.len(), |i: int| complement(s[s.len() - 1 - i]))
}

/// The bytes of `s` as UTF-8.
pub open spec fn bytes_of(s: Seq<char>) -> Seq<u8> {
    vstd::utf8::encode_utf8(s)
}

/// A nucleotide sequence is plain ASCII: one byte per base, equal to the base.
pub proof fn lemma_dna_bytes(s: Seq<char>)
    requires
        is_dna(s),
    ensures
        bytes_of(s).len() == s.len(),
        forall|i: int| 0 <= i < s.len() ==> #[trigger] bytes_of(s)[i] == s[i] as u8,
{
    assert(vstd::utf8::is_ascii_chars(s)) by {
        assert forall|i: int| 0 <= i < s.len() implies '\0' <= #[trigger] s[i] <= '\u{7f}' by {
            assert(is_base(s[i]));
        }
    }
    vstd::utf8::is_ascii_chars_encode_utf8(s);
}

/// The reverse complement of a nucleotide sequence is one again, of the same length.
pub proof fn lemma_revcomp_dna(s: Seq<char>)
    requires
        is_dna(s),
    ensures
        is_dna(revcomp(s)),
        revcomp(s).len() == s.len(),
{
    assert forall|i: int| 0 <= i < revcomp(s).len() implies #[trigger] is_base(revcomp(s)[i]) by {
        assert(is_base(s[s.len() - 1 - i]));
    }
}

/// Taking the reverse complement twice gives back the sequence.
pub proof fn lemma_revcomp_involution(s: Seq<char>)
    requires
        is_dna(s),
    ensures
        revcomp(revcomp(s)) == s,
{
    assert forall|i: int| 0 <= i < s.len() implies #[trigger] revcomp(revcomp(s))[i] == s[i] by {
        assert(is_base(s[i]));
    }
    assert(revcomp(revcomp(s)) =~= s);
}

/// Relies on `String::push`: appends one character at the end.
#[verifier::external_body]
fn push_char(s: &mut String, c: char)
    ensures
        final(s)@ == old(s)@.push(c),
{
    s.push(c)
}

/// The pairing base of the nucleotide whose ASCII code is `b`.
fn complement_of_byte(b: u8) -> (r: char)
    requires
        b == 'A' as u8 || b == 'C' as u8 || b == 'G' as u8 || b == 'T' as u8,
    ensures
        b == 'A' as u8 ==> r == 'T',
        b == 'T' as u8 ==> r == 'A',
        b == 'C' as u8 ==> r == 'G',
        b == 'G' as u8 ==> r == 'C',
{
    if b == 65 {
        'T'
    } else if b == 84 {
        'A'
    } else if b == 67 {
        'G'
    } else {
        'C'
    }
}

/// The reverse complement of a nucleotide sequence.
pub fn reverse_complement(seq: &str) -> (r: String)
    requires
        is_dna(seq@),
    ensures
        r@ == revcomp(seq@),
{
    let bytes = seq.as_bytes();
    proof {
        lemma_dna_bytes(seq@);
    }
    let n = bytes.len();
    let mut out = String::new();
    let mut i: usize = n;
    while i > 0
        invariant
            n == seq@.len(),
            is_dna(seq@),
            bytes@.len() == n,
            forall|k: int| 0 <= k < n ==> #[trigger] bytes@[k] == seq@[k] as u8,
            i <= n,
            out@ == revcomp(seq@).subrange(0, (n - i) as int),
        decreases i,
    {
        i = i - 1;
        assert(is_base(seq@[i as int]));
        let c = complement_of_byte(bytes[i]);
        push_char(&mut out, c);
        assert(out@ =~= revcomp(seq@).subrange(0, (n - i) as int));
    }
    assert(out@ =~= revcomp(seq@));
    out
}

/// The strand variants of a candidate: its sequences, then the reverse complement of each.
pub open spec fn strand_variants(seqs: Seq<Seq<char>>) -> Seq<Seq<char>> {
    seqs + seqs.map_values(|s: Seq<char>| revcomp(s))
}

/// The views of a list of strings.
pub open spec fn views(v: Seq<String>) -> Seq<Seq<char>> {
    v.map_values(|s: String| s@)
}

/// Every string of the list is a nucleotide sequence.
pub open spec fn all_dna(v: Seq<String>) -> bool {
    forall|j: int| 0 <= j < v.len() ==> #[trigger] is_dna(v[j]@)
}

/// The given sequences followed by the reverse complement of each, in the same order.
pub fn generate_all_seqs(seqs: &Vec<String>) -> (r: Vec<String>)
    requires
        all_dna(seqs@),
    ensures
        views(r@) == strand_variants(views(seqs@)),
{
    let n = seqs.len();
    let mut out: Vec<String> = Vec::new();
    let mut i: usize = 0;
    while i < n
        invariant
            n == seqs@.len(),
            i <= n,
            out@.len() == i,
            forall|k: int| 0 <= k < i ==> #[trigger] out@[k]@ == seqs@[k]@,
        decreases n - i,
    {
        out.push(seqs[i].clone());
        i = i + 1;
    }
    let mut j: usize = 0;
    while j < n
        invariant
            n == seqs@.len(),
            j <= n,
            all_dna(seqs@),
            out@.len() == n + j,
            forall|k: int| 0 <= k < n ==> #[trigger] out@[k]@ == seqs@[k]@,
            forall|k: int| 0 <= k < j ==> #[trigger] out@[n + k]@ == revcomp(seqs@[k]@),
        decreases n - j,
    {
        assert(is_dna(seqs@[j as int]@));
        let rc = reverse_complement(seqs[j].as_str());
        out.push(rc);
        assert(out@[n + j as int]@ == revcomp(seqs@[j as int]@));
        j = j + 1;
    }
    assert(views(out@) =~= strand_variants(views(seqs@))) by {
        assert forall|k: int| 0 <= k < 2 * n implies #[trigger] views(out@)[k] == strand_variants(
            views(seqs@),
        )[k] by {
            if k >= n {
                assert(out@[n + (k - n)]@ == revcomp(seqs@[k - n]@));
            }
        }
    }
    out
}

/// True when every character of `seq` is one of `A`, `C`, `G`, `T`.
pub fn is_dna_str(seq: &str) -> (r: bool)
    ensures
        r == is_dna(seq@),
{
    if !seq.is_ascii() {
        assert(!is_dna(seq@)) by {
            if is_dna(seq@) {
                assert forall|i: int| 0 <= i < seq@.len() implies '\0' <= #[trigger] seq@[i]
                    <= '\u{7f}' by {
                    assert(is_base(seq@[i]));
                }
            }
        }
        return false;
    }
    let bytes = seq.as_bytes();
    proof {
        vstd::utf8::is_ascii_chars_encode_utf8(seq@);
    }
    let n = bytes.len();
    let mut i: usize = 0;
    while i < n
        invariant
            n == seq@.len(),
            bytes@.len() == n,
            vstd::utf8::is_ascii_chars(seq@),
            forall|k: int| 0 <= k < n ==> #[trigger] bytes@[k] == seq@[k] as u8,
            i <= n,
            forall|k: int| 0 <= k < i ==> #[trigger] is_base(seq@[k]),
        decreases n - i,
    {
        let b = bytes[i];
        assert('\0' <= seq@[i as int] <= '\u{7f}');
        if !(b == 65 || b == 67 || b == 71 || b == 84) {
            assert(!is_base(seq@[i as int]));
            return false;
        }
        i = i + 1;
    }
    true
}

} // verus!
