//! Plain-text rendering of query results: one table per command, columns
//! centered at fixed widths, every character of the result pinned down by
//! the rendering specification.

use vstd::prelude::*;
use vstd::string::StringExecFns;

use crate::address::Address;
use crate::state::Farm;
use crate::state::FarmManager;
use crate::state::Lock;
use crate::state::WhitelistProof;
use crate::state::WhitelistType;

verus! {

/// The decimal digit character for `d`.
pub open spec fn spec_digit(d: int) -> char {
    if d == 0 {
        '0'
    } else if d == 1 {
        '1'
    } else if d == 2 {
        '2'
    } else if d == 3 {
        '3'
    } else if d == 4 {
        '4'
    } else if d == 5 {
        '5'
    } else if d == 6 {
        '6'
    } else if d == 7 {
        '7'
    } else if d == 8 {
        '8'
    } else {
        '9'
    }
}

/// The decimal digits of `n`, most significant first.
pub open spec fn spec_u64_str(n: int) -> Seq<char>
    decreases n,
{
    if n < 10 {
        seq![spec_digit(n)]
    } else {
        spec_u64_str(n / 10).push(spec_digit(n % 10))
    }
}

/// Ten to the `k`th power.
pub open spec fn pow10(k: nat) -> int
    decreases k,
{
    if k == 0 {
        1
    } else {
        10 * pow10((k - 1) as nat)
    }
}

/// A number below `10^k` prints in at most `k` digits.
pub proof fn lemma_u64_str_len_bound(n: int, k: int)
    requires
        0 <= n,
        1 <= k,
        n < pow10(k as nat),
    ensures
        1 <= spec_u64_str(n).len() <= k,
    decreases n,
{
    if n >= 10 {
        assert(n / 10 < pow10((k - 1) as nat)) by (nonlinear_arith)
            requires
                n < pow10(k as nat),
                pow10(k as nat) == 10 * pow10((k - 1) as nat),
                n >= 10,
        ;
        lemma_u64_str_len_bound(n / 10, k - 1);
    }
}

/// Any `u64` prints in at most twenty digits.
pub proof fn lemma_u64_str_len(n: u64)
    ensures
        1 <= spec_u64_str(n as int).len() <= 20,
{
    reveal_with_fuel(pow10, 21);
    assert(pow10(20) == 0x56bc75e2d63100000);
    lemma_u64_str_len_bound(n as int, 20);
}

/// The decimal digit character for `d`.
fn digit_str(d: u64) -> (r: &'static str)
    requires
        d < 10,
    ensures
        r@ == seq![spec_digit(d as int)],
{
    proof {
        reveal_strlit("0");
        reveal_strlit("1");
        reveal_strlit("2");
        reveal_strlit("3");
        reveal_strlit("4");
        reveal_strlit("5");
        reveal_strlit("6");
        reveal_strlit("7");
        reveal_strlit("8");
        reveal_strlit("9");
    }
    if d == 0 {
        "0"
    } else if d == 1 {
        "1"
    } else if d == 2 {
        "2"
    } else if d == 3 {
        "3"
    } else if d == 4 {
        "4"
    } else if d == 5 {
        "5"
    } else if d == 6 {
        "6"
    } else if d == 7 {
        "7"
    } else if d == 8 {
        "8"
    } else {
        "9"
    }
}

/// Renders `n` in decimal, returning the text and its length in characters.
pub fn u64_string(n: u64) -> (r: (String, usize))
    ensures
        r.0@ == spec_u64_str(n as int),
        r.1 == spec_u64_str(n as int).len(),
    decreases n,
{
    proof {
        lemma_u64_str_len(n);
    }
    if n < 10 {
        let s = digit_str(n).to_owned();
        (s, 1)
    } else {
        let (mut s, l) = u64_string(n / 10);
        proof {
            lemma_u64_str_len(n / 10);
        }
        s.append(digit_str(n % 10));
        proof {
            assert(s@ =~= spec_u64_str(n as int));
        }
        (s, l + 1)
    }
}

/// `n` spaces.
pub open spec fn spec_spaces(n: int) -> Seq<char> {
    Seq::new(if n < 0 {
        0
    } else {
        n as nat
    }, |i: int| ' ')
}

/// Builds a run of `n` spaces.
fn spaces(n: usize) -> (r: String)
    ensures
        r@ == spec_spaces(n as int),
{
    proof {
        reveal_strlit(" ");
    }
    let mut s = String::new();
    let mut i: usize = 0;
    while i < n
        invariant
            i <= n,
            s@ == spec_spaces(i as int),
        decreases n - i,
    {
        s.append(" ");
        proof {
            reveal_strlit(" ");
            assert(" "@ =~= seq![' ']);
            assert(s@ =~= spec_spaces(i + 1));
        }
        i += 1;
    }
    s
}

/// `s` centered in a field of `width` characters: the leftover space is
/// split evenly, the odd space going to the right; text wider than the
/// field is kept whole.
pub open spec fn spec_pad_center(s: Seq<char>, width: int) -> Seq<char> {
    if s.len() >= width {
        s
    } else {
        spec_spaces((width - s.len()) / 2) + s + spec_spaces(
            width - s.len() - (width - s.len()) / 2,
        )
    }
}

/// Centers `s`, whose character length is `len`, in a `width`-column field.
fn pad_center(s: &String, len: usize, width: usize) -> (r: String)
    requires
        len == s@.len(),
    ensures
        r@ == spec_pad_center(s@, width as int),
{
    if len >= width {
        return s.clone();
    }
    let pad = width - len;
    let left = pad / 2;
    let right = pad - left;
    let mut out = spaces(left);
    out.append(s.as_str());
    let rpad = spaces(right);
    out.append(rpad.as_str());
    out
}

/// The printable form of a derived address: the derivation tag, a colon,
/// and the key components in decimal, joined by dots.
pub open spec fn spec_address_str(a: Address) -> Seq<char> {
    match a {
        Address::Farm(k) => "farm:"@ + spec_u64_str(k.authority as int) + "."@ + spec_u64_str(
            k.reward_mint as int,
        ),
        Address::FarmManager(f, owner) => "farm_manager:"@ + spec_u64_str(f.authority as int)
            + "."@ + spec_u64_str(f.reward_mint as int) + "."@ + spec_u64_str(owner as int),
        Address::WhitelistProof(f, target) => "collection_data:"@ + spec_u64_str(
            f.authority as int,
        ) + "."@ + spec_u64_str(f.reward_mint as int) + "."@ + spec_u64_str(target as int),
        Address::Lock(k) => "lock:"@ + spec_u64_str(k.farm.authority as int) + "."@ + spec_u64_str(
            k.farm.reward_mint as int,
        ) + "."@ + spec_u64_str(k.duration as int) + "."@ + spec_u64_str(k.cooldown as int),
        Address::Farmer(k) => "farmer:"@ + spec_u64_str(k.farm.authority as int) + "."@
            + spec_u64_str(k.farm.reward_mint as int) + "."@ + spec_u64_str(k.owner as int),
        Address::StakeReceipt(f, mint) => "stake_receipt:"@ + spec_u64_str(f.farm.authority as int)
            + "."@ + spec_u64_str(f.farm.reward_mint as int) + "."@ + spec_u64_str(f.owner as int)
            + "."@ + spec_u64_str(mint as int),
    }
}

/// Renders a derived address, returning the text and its character length.
pub fn address_string(a: &Address) -> (r: (String, usize))
    ensures
        r.0@ == spec_address_str(*a),
        r.1 == spec_address_str(*a).len(),
{
    match a {
        Address::Farm(k) => {
            proof {
                lemma_u64_str_len(k.authority);
                lemma_u64_str_len(k.reward_mint);
            }
            let mut s = "farm:".to_owned();
            let (c0, l0) = u64_string(k.authority);
            let (c1, l1) = u64_string(k.reward_mint);
            s.append(c0.as_str());
            s.append(".");
            s.append(c1.as_str());
            proof {
                reveal_strlit("farm:");
                reveal_strlit(".");
                assert(s@ =~= spec_address_str(*a));
            }
            (s, 5 + l0 + 1 + l1)
        },
        Address::FarmManager(f, owner) => {
            proof {
                lemma_u64_str_len(f.authority);
                lemma_u64_str_len(f.reward_mint);
                lemma_u64_str_len(*owner);
            }
            let mut s = "farm_manager:".to_owned();
            let (c0, l0) = u64_string(f.authority);
            let (c1, l1) = u64_string(f.reward_mint);
            let (c2, l2) = u64_string(*owner);
            s.append(c0.as_str());
            s.append(".");
            s.append(c1.as_str());
            s.append(".");
            s.append(c2.as_str());
            proof {
                reveal_strlit("farm_manager:");
                reveal_strlit(".");
                assert(s@ =~= spec_address_str(*a));
            }
            (s, 13 + l0 + 1 + l1 + 1 + l2)
        },
        Address::WhitelistProof(f, target) => {
            proof {
                lemma_u64_str_len(f.authority);
                lemma_u64_str_len(f.reward_mint);
                lemma_u64_str_len(*target);
            }
            let mut s = "collection_data:".to_owned();
            let (c0, l0) = u64_string(f.authority);
            let (c1, l1) = u64_string(f.reward_mint);
            let (c2, l2) = u64_string(*target);
            s.append(c0.as_str());
            s.append(".");
            s.append(c1.as_str());
            s.append(".");
            s.append(c2.as_str());
            proof {
                reveal_strlit("collection_data:");
                reveal_strlit(".");
                assert(s@ =~= spec_address_str(*a));
            }
            (s, 16 + l0 + 1 + l1 + 1 + l2)
        },
        Address::Lock(k) => {
            proof {
                lemma_u64_str_len(k.farm.authority);
                lemma_u64_str_len(k.farm.reward_mint);
                lemma_u64_str_len(k.duration);
                lemma_u64_str_len(k.cooldown);
            }
            let mut s = "lock:".to_owned();
            let (c0, l0) = u64_string(k.farm.authority);
            let (c1, l1) = u64_string(k.farm.reward_mint);
            let (c2, l2) = u64_string(k.duration);
            let (c3, l3) = u64_string(k.cooldown);
            s.append(c0.as_str());
            s.append(".");
            s.append(c1.as_str());
            s.append(".");
            s.append(c2.as_str());
            s.append(".");
            s.append(c3.as_str());
            proof {
                reveal_strlit("lock:");
                reveal_strlit(".");
                assert(s@ =~= spec_address_str(*a));
            }
            (s, 5 + l0 + 1 + l1 + 1 + l2 + 1 + l3)
        },
        Address::Farmer(k) => {
            proof {
                lemma_u64_str_len(k.farm.authority);
                lemma_u64_str_len(k.farm.reward_mint);
                lemma_u64_str_len(k.owner);
            }
            let mut s = "farmer:".to_owned();
            let (c0, l0) = u64_string(k.farm.authority);
            let (c1, l1) = u64_string(k.farm.reward_mint);
            let (c2, l2) = u64_string(k.owner);
            s.append(c0.as_str());
            s.append(".");
            s.append(c1.as_str());
            s.append(".");
            s.append(c2.as_str());
            proof {
                reveal_strlit("farmer:");
                reveal_strlit(".");
                assert(s@ =~= spec_address_str(*a));
            }
            (s, 7 + l0 + 1 + l1 + 1 + l2)
        },
        Address::StakeReceipt(f, mint) => {
            proof {
                lemma_u64_str_len(f.farm.authority);
                lemma_u64_str_len(f.farm.reward_mint);
                lemma_u64_str_len(f.owner);
                lemma_u64_str_len(*mint);
            }
            let mut s = "stake_receipt:".to_owned();
            let (c0, l0) = u64_string(f.farm.authority);
            let (c1, l1) = u64_string(f.farm.reward_mint);
            let (c2, l2) = u64_string(f.owner);
            let (c3, l3) = u64_string(*mint);
            s.append(c0.as_str());
            s.append(".");
            s.append(c1.as_str());
            s.append(".");
            s.append(c2.as_str());
            s.append(".");
            s.append(c3.as_str());
            proof {
                reveal_strlit("stake_receipt:");
                reveal_strlit(".");
                assert(s@ =~= spec_address_str(*a));
            }
            (s, 14 + l0 + 1 + l1 + 1 + l2 + 1 + l3)
        },
    }
}

/// Anything a command can print: its text is fixed by `render_spec`, and
/// `render` produces exactly that text.
pub trait Render {
    /// The full text this output prints.
    spec fn render_spec(&self) -> Seq<char>;

    /// Produces the output's text.
    fn render(&self) -> (r: String)
        ensures
            r@ == self.render_spec(),
    ;
}

/// Renders a command's output to its printable text; the caller writes it
/// out.
pub fn output_command<T: Render>(output: &T) -> (r: String)
    ensures
        r@ == output.render_spec(),
{
    output.render()
}

/// Confirmation printed after a farm is created.
pub struct FarmCreateOutput(pub Address);

impl Render for FarmCreateOutput {
    open spec fn render_spec(&self) -> Seq<char> {
        "Created a new farm at: "@ + spec_address_str(self.0) + "\n"@
    }

    fn render(&self) -> (r: String) {
        let mut s = "Created a new farm at: ".to_owned();
        let (addr, _) = address_string(&self.0);
        s.append(addr.as_str());
        s.append("\n");
        s
    }
}

/// One row of the farm table.
pub open spec fn spec_farm_row(f: Farm) -> Seq<char> {
    spec_pad_center(spec_address_str(Address::Farm(f.key_spec())), 44) + " | "@ + spec_pad_center(
        spec_u64_str(f.reward_mint as int),
        44,
    ) + "\n"@
}

/// Renders one row of the farm table.
fn farm_row(f: &Farm) -> (r: String)
    ensures
        r@ == spec_farm_row(*f),
{
    let (addr, al) = address_string(&Address::Farm(f.key()));
    let mut s = pad_center(&addr, al, 44);
    s.append(" | ");
    let (num, nl) = u64_string(f.reward_mint);
    let c1 = pad_center(&num, nl, 44);
    s.append(c1.as_str());
    s.append("\n");
    proof {
        assert(s@ =~= spec_farm_row(*f));
    }
    s
}

/// The farm table's rows, in list order.
pub open spec fn spec_farm_rows(s: Seq<Farm>) -> Seq<char>
    decreases s.len(),
{
    if s.len() == 0 {
        Seq::empty()
    } else {
        spec_farm_rows(s.drop_last()) + spec_farm_row(s.last())
    }
}

/// The farms where a manager holds a grant, as a two-column table.
pub struct FarmListOutput(pub Vec<Farm>);

impl Render for FarmListOutput {
    open spec fn render_spec(&self) -> Seq<char> {
        spec_pad_center("Address"@, 44) + " | "@ + spec_pad_center("Reward mint"@, 44) + "\n"@
            + spec_farm_rows(self.0@)
    }

    fn render(&self) -> (r: String) {
        proof {
            reveal_strlit("Address");
            reveal_strlit("Reward mint");
        }
        let mut s = pad_center(&"Address".to_owned(), 7, 44);
        s.append(" | ");
        let h1 = pad_center(&"Reward mint".to_owned(), 11, 44);
        s.append(h1.as_str());
        s.append("\n");
        let ghost header = s@;
        let n = self.0.len();
        let mut i: usize = 0;
        while i < n
            invariant
                n == self.0@.len(),
                i <= n,
                s@ == header + spec_farm_rows(self.0@.take(i as int)),
            decreases n - i,
        {
            let f = self.0[i];
            let row = farm_row(&f);
            s.append(row.as_str());
            proof {
                let taken = self.0@.take(i + 1);
                assert(taken.drop_last() =~= self.0@.take(i as int));
                assert(taken.last() == f);
                assert(s@ =~= header + spec_farm_rows(taken));
            }
            i += 1;
        }
        proof {
            assert(self.0@.take(n as int) =~= self.0@);
        }
        s
    }
}

/// One row of the manager table.
pub open spec fn spec_manager_row(m: FarmManager) -> Seq<char> {
    spec_pad_center(spec_address_str(Address::FarmManager(m.farm, m.authority)), 44) + " | "@
        + spec_pad_center(spec_u64_str(m.authority as int), 44) + "\n"@
}

/// Renders one row of the manager table.
fn manager_row(m: &FarmManager) -> (r: String)
    ensures
        r@ == spec_manager_row(*m),
{
    let (addr, al) = address_string(&Address::FarmManager(m.farm, m.authority));
    let mut s = pad_center(&addr, al, 44);
    s.append(" | ");
    let (num, nl) = u64_string(m.authority);
    let c1 = pad_center(&num, nl, 44);
    s.append(c1.as_str());
    s.append("\n");
    proof {
        assert(s@ =~= spec_manager_row(*m));
    }
    s
}

/// The manager table's rows, in list order.
pub open spec fn spec_manager_rows(s: Seq<FarmManager>) -> Seq<char>
    decreases s.len(),
{
    if s.len() == 0 {
        Seq::empty()
    } else {
        spec_manager_rows(s.drop_last()) + spec_manager_row(s.last())
    }
}

/// A farm's manager grants, as a two-column table.
pub struct FarmManagerListOutput(pub Vec<FarmManager>);

impl Render for FarmManagerListOutput {
    open spec fn render_spec(&self) -> Seq<char> {
        spec_pad_center("Address"@, 44) + " | "@ + spec_pad_center("Owner"@, 44) + "\n"@
            + spec_manager_rows(self.0@)
    }

    fn render(&self) -> (r: String) {
        proof {
            reveal_strlit("Address");
            reveal_strlit("Owner");
        }
        let mut s = pad_center(&"Address".to_owned(), 7, 44);
        s.append(" | ");
        let h1 = pad_center(&"Owner".to_owned(), 5, 44);
        s.append(h1.as_str());
        s.append("\n");
        let ghost header = s@;
        let n = self.0.len();
        let mut i: usize = 0;
        while i < n
            invariant
                n == self.0@.len(),
                i <= n,
                s@ == header + spec_manager_rows(self.0@.take(i as int)),
            decreases n - i,
        {
            let m = self.0[i];
            let row = manager_row(&m);
            s.append(row.as_str());
            proof {
                let taken = self.0@.take(i + 1);
                assert(taken.drop_last() =~= self.0@.take(i as int));
                assert(taken.last() == m);
                assert(s@ =~= header + spec_manager_rows(taken));
            }
            i += 1;
        }
        proof {
            assert(self.0@.take(n as int) =~= self.0@);
        }
        s
    }
}

/// The printable name of a whitelist kind.
pub open spec fn spec_whitelist_type_str(t: WhitelistType) -> Seq<char> {
    match t {
        WhitelistType::Creator => "Creator"@,
        WhitelistType::Mint => "Mint"@,
    }
}

/// One row of the whitelist table.
pub open spec fn spec_whitelist_row(w: WhitelistProof) -> Seq<char> {
    spec_pad_center(spec_address_str(Address::WhitelistProof(w.farm, w.whitelisted_address)), 44)
        + " | "@ + spec_pad_center(spec_u64_str(w.reward_rate as int), 22) + " | "@
        + spec_pad_center(spec_whitelist_type_str(w.ty), 22) + "\n"@
}

/// Renders one row of the whitelist table.
fn whitelist_row(w: &WhitelistProof) -> (r: String)
    ensures
        r@ == spec_whitelist_row(*w),
{
    let (addr, al) = address_string(&Address::WhitelistProof(w.farm, w.whitelisted_address));
    let mut s = pad_center(&addr, al, 44);
    s.append(" | ");
    let (num, nl) = u64_string(w.reward_rate);
    let c1 = pad_center(&num, nl, 22);
    s.append(c1.as_str());
    s.append(" | ");
    let c2 = match w.ty {
        WhitelistType::Creator => {
            proof {
                reveal_strlit("Creator");
            }
            pad_center(&"Creator".to_owned(), 7, 22)
        },
        WhitelistType::Mint => {
            proof {
                reveal_strlit("Mint");
            }
            pad_center(&"Mint".to_owned(), 4, 22)
        },
    };
    s.append(c2.as_str());
    s.append("\n");
    proof {
        assert(s@ =~= spec_whitelist_row(*w));
    }
    s
}

/// The whitelist table's rows, in list order.
pub open spec fn spec_whitelist_rows(s: Seq<WhitelistProof>) -> Seq<char>
    decreases s.len(),
{
    if s.len() == 0 {
        Seq::empty()
    } else {
        spec_whitelist_rows(s.drop_last()) + spec_whitelist_row(s.last())
    }
}

/// A farm's whitelist, as a three-column table.
pub struct WhitelistListOutput(pub Vec<WhitelistProof>);

impl Render for WhitelistListOutput {
    open spec fn render_spec(&self) -> Seq<char> {
        spec_pad_center("Address"@, 44) + " | "@ + spec_pad_center("Reward rate"@, 22) + " | "@
            + spec_pad_center("Type"@, 22) + "\n"@ + spec_whitelist_rows(self.0@)
    }

    fn render(&self) -> (r: String) {
        proof {
            reveal_strlit("Address");
            reveal_strlit("Reward rate");
            reveal_strlit("Type");
        }
        let mut s = pad_center(&"Address".to_owned(), 7, 44);
        s.append(" | ");
        let h1 = pad_center(&"Reward rate".to_owned(), 11, 22);
        s.append(h1.as_str());
        s.append(" | ");
        let h2 = pad_center(&"Type".to_owned(), 4, 22);
        s.append(h2.as_str());
        s.append("\n");
        let ghost header = s@;
        let n = self.0.len();
        let mut i: usize = 0;
        while i < n
            invariant
                n == self.0@.len(),
                i <= n,
                s@ == header + spec_whitelist_rows(self.0@.take(i as int)),
            decreases n - i,
        {
            let w = self.0[i];
            let row = whitelist_row(&w);
            s.append(row.as_str());
            proof {
                let taken = self.0@.take(i + 1);
                assert(taken.drop_last() =~= self.0@.take(i as int));
                assert(taken.last() == w);
                assert(s@ =~= header + spec_whitelist_rows(taken));
            }
            i += 1;
        }
        proof {
            assert(self.0@.take(n as int) =~= self.0@);
        }
        s
    }
}

/// One row of the lock table.
pub open spec fn spec_lock_row(l: Lock) -> Seq<char> {
    spec_pad_center(spec_address_str(Address::Lock(l.key_spec())), 44) + " | "@ + spec_pad_center(
        spec_u64_str(l.duration as int),
        22,
    ) + " | "@ + spec_pad_center(spec_u64_str(l.cooldown as int), 22) + " | "@ + spec_pad_center(
        spec_u64_str(l.bonus_factor as int),
        22,
    ) + "\n"@
}

/// Renders one row of the lock table.
fn lock_row(l: &Lock) -> (r: String)
    ensures
        r@ == spec_lock_row(*l),
{
    let (addr, al) = address_string(&Address::Lock(l.key()));
    let mut s = pad_center(&addr, al, 44);
    s.append(" | ");
    let (num, nl) = u64_string(l.duration);
    let c1 = pad_center(&num, nl, 22);
    s.append(c1.as_str());
    s.append(" | ");
    let (num2, nl2) = u64_string(l.cooldown);
    let c2 = pad_center(&num2, nl2, 22);
    s.append(c2.as_str());
    s.append(" | ");
    let (num3, nl3) = u64_string(l.bonus_factor as u64);
    let c3 = pad_center(&num3, nl3, 22);
    s.append(c3.as_str());
    s.append("\n");
    proof {
        assert(s@ =~= spec_lock_row(*l));
    }
    s
}

/// The lock table's rows, in list order.
pub open spec fn spec_lock_rows(s: Seq<Lock>) -> Seq<char>
    decreases s.len(),
{
    if s.len() == 0 {
        Seq::empty()
    } else {
        spec_lock_rows(s.drop_last()) + spec_lock_row(s.last())
    }
}

/// A farm's locks, as a four-column table.
pub struct LockListOutput(pub Vec<Lock>);

impl Render for LockListOutput {
    open spec fn render_spec(&self) -> Seq<char> {
        spec_pad_center("Address"@, 44) + " | "@ + spec_pad_center("Duration"@, 22) + " | "@
            + spec_pad_center("Cooldown"@, 22) + " | "@ + spec_pad_center("Bonus factor"@, 22)
            + "\n"@ + spec_lock_rows(self.0@)
    }

    fn render(&self) -> (r: String) {
        proof {
            reveal_strlit("Address");
            reveal_strlit("Duration");
            reveal_strlit("Cooldown");
            reveal_strlit("Bonus factor");
        }
        let mut s = pad_center(&"Address".to_owned(), 7, 44);
        s.append(" | ");
        let h1 = pad_center(&"Duration".to_owned(), 8, 22);
        s.append(h1.as_str());
        s.append(" | ");
        let h2 = pad_center(&"Cooldown".to_owned(), 8, 22);
        s.append(h2.as_str());
        s.append(" | ");
        let h3 = pad_center(&"Bonus factor".to_owned(), 12, 22);
        s.append(h3.as_str());
        s.append("\n");
        let ghost header = s@;
        let n = self.0.len();
        let mut i: usize = 0;
        while i < n
            invariant
                n == self.0@.len(),
                i <= n,
                s@ == header + spec_lock_rows(self.0@.take(i as int)),
            decreases n - i,
        {
            let l = self.0[i];
            let row = lock_row(&l);
            s.append(row.as_str());
            proof {
                let taken = self.0@.take(i + 1);
                assert(taken.drop_last() =~= self.0@.take(i as int));
                assert(taken.last() == l);
                assert(s@ =~= header + spec_lock_rows(taken));
            }
            i += 1;
        }
        proof {
            assert(self.0@.take(n as int) =~= self.0@);
        }
        s
    }
}

} // verus!
