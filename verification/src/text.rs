use vstd::prelude::*;
use vstd::string::StringSliceAdditionalSpecFns;

verus! {

/// `n` stars.
pub open spec fn stars(n: nat) -> Seq<char> {
    Seq::new(n, |i: int| '*')
}

/// A header framed by two rows of `width` stars:
/// an empty line, the stars, `* header *`, the stars, and a line break.
pub open spec fn banner_text(header: Seq<char>, width: nat) -> Seq<char> {
    "\n"@ + stars(width) + "\n* "@ + header + " *\n"@ + stars(width) + "\n"@
}

/// The layout of a banner, character by character: a line break, a row of
/// exactly `width` stars, a line break, `* `, the header, ` *`, a line
/// break, a second row of exactly `width` stars, and a final line break.
pub proof fn lemma_banner_layout(header: Seq<char>, width: nat)
    ensures
        ({
            let b = banner_text(header, width);
            let hl = header.len() as int;
            let w = width as int;
            &&& b.len() == 2 * w + hl + 8
            &&& b[0] == '\n'
            &&& forall|i: int| 1 <= i <= w ==> #[trigger] b[i] == '*'
            &&& b[w + 1] == '\n'
            &&& b[w + 2] == '*'
            &&& b[w + 3] == ' '
            &&& forall|i: int| 0 <= i < hl ==> #[trigger] b[w + 4 + i] == header[i]
            &&& b[w + 4 + hl] == ' '
            &&& b[w + 5 + hl] == '*'
            &&& b[w + 6 + hl] == '\n'
            &&& forall|i: int| w + 7 + hl <= i < 2 * w + 7 + hl ==> #[trigger] b[i] == '*'
            &&& b[2 * w + 7 + hl] == '\n'
        }),
{
    reveal_strlit("\n");
    reveal_strlit("\n* ");
    reveal_strlit(" *\n");
    let hl = header.len() as int;
    let w = width as int;
    let b = banner_text(header, width);
    let p1 = "\n"@ + stars(width);
    let p2 = p1 + "\n* "@;
    let p3 = p2 + header;
    let p4 = p3 + " *\n"@;
    let p5 = p4 + stars(width);
    assert(b == p5 + "\n"@);
    assert forall|i: int| 0 <= i < hl implies #[trigger] b[w + 4 + i] == header[i] by {
        assert(b[w + 4 + i] == p5[w + 4 + i]);
        assert(p5[w + 4 + i] == p4[w + 4 + i]);
        assert(p4[w + 4 + i] == p3[w + 4 + i]);
    }
    assert forall|i: int| w + 7 + hl <= i < 2 * w + 7 + hl implies #[trigger] b[i]
        == '*' by {
        assert(b[i] == p5[i]);
        assert(p5[i] == stars(width)[i - (w + 7 + hl)]);
    }
    assert forall|i: int| 1 <= i <= w implies #[trigger] b[i] == '*' by {
        assert(b[i] == p5[i]);
        assert(p5[i] == p4[i]);
        assert(p4[i] == p3[i]);
        assert(p3[i] == p2[i]);
        assert(p2[i] == p1[i]);
    }
}

/// Appends `n` stars to `s`.
fn push_stars(s: &mut String, n: usize)
    ensures
        final(s)@ == old(s)@ + stars(n as nat),
{
    let mut i: usize = 0;
    while i < n
        invariant
            i <= n,
            s@ == old(s)@ + stars(i as nat),
        decreases n - i,
    {
        s.append("*");
        proof {
            reveal_strlit("*");
        }
        assert(stars((i + 1) as nat) =~= stars(i as nat) + "*"@);
        i = i + 1;
    }
}

/// The text of a section header: `header` framed by rows of stars four wider
/// than its length in bytes. Printed with a final line break, it gives the
/// header of each section of the tour.
pub fn header_banner(header: &str) -> (banner: String)
    requires
        header.spec_bytes().len() + 4 <= usize::MAX,
    ensures
        banner@ == banner_text(header@, header.spec_bytes().len() + 4),
        banner@.len() == 2 * (header.spec_bytes().len() + 4) + header@.len() + 8,
        forall|i: int| 1 <= i <= header.spec_bytes().len() + 4 ==> #[trigger] banner@[i] == '*',
        banner@[header.spec_bytes().len() + 5 as int] == '\n',
{
    let width = header.len() + 4;
    let mut banner = String::new();
    banner.append("\n");
    push_stars(&mut banner, width);
    banner.append("\n* ");
    banner.append(header);
    banner.append(" *\n");
    push_stars(&mut banner, width);
    banner.append("\n");
    proof {
        lemma_banner_layout(header@, header.spec_bytes().len() + 4);
    }
    banner
}

/// The line reported for an optional input: `Some: <input>` when there is
/// one, `Nothing, nodda` when there is none.
pub fn input_message(input_arg: Option<String>) -> (msg: String)
    ensures
        msg@ == match input_arg {
            Some(input) => "Some: "@ + input@,
            None => "Nothing, nodda"@,
        },
{
    match input_arg {
        Some(input) => {
            let mut msg = String::from_str("Some: ");
            msg.append(input.as_str());
            msg
        },
        None => String::from_str("Nothing, nodda"),
    }
}

} // verus!
