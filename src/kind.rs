use vstd::prelude::*;
use vstd::string::StringSliceAdditionalSpecFns;
use vstd::utf8::encode_utf8_decode_utf8;

verus! {

/// The response type of one equalizer band.
#[derive(Clone, Copy, Debug, PartialEq, Eq, Structural)]
pub enum FilterKind {
    LowPass,
    LowPass2,
    LowShelf,
    HighPass,
    HighPass2,
    HighShelf,
    Peak,
    Notch,
}

/// The kind that carries a given id; ids above `FilterKind::MAX_ID` are not kinds.
pub open spec fn kind_of_id(id: nat) -> Option<FilterKind> {
    if id == 0 {
        Some(FilterKind::LowPass)
    } else if id == 1 {
        Some(FilterKind::LowPass2)
    } else if id == 2 {
        Some(FilterKind::LowShelf)
    } else if id == 3 {
        Some(FilterKind::HighPass)
    } else if id == 4 {
        Some(FilterKind::HighPass2)
    } else if id == 5 {
        Some(FilterKind::HighShelf)
    } else if id == 6 {
        Some(FilterKind::Peak)
    } else if id == 7 {
        Some(FilterKind::Notch)
    } else {
        None
    }
}

/// The id that a display name parses to: the kind so named, or Peak for any other text.
pub open spec fn id_of_name(s: Seq<char>) -> nat {
    if s == "Low Pass"@ {
        0
    } else if s == "Low Pass 2"@ {
        1
    } else if s == "Low Shelf"@ {
        2
    } else if s == "High Pass"@ {
        3
    } else if s == "High Pass 2"@ {
        4
    } else if s == "High Shelf"@ {
        5
    } else if s == "Notch"@ {
        7
    } else {
        6
    }
}

/// The display name shown for an id; an id that names no kind shows as Peak.
pub open spec fn name_of_id(id: nat) -> Seq<char> {
    match kind_of_id(id) {
        Some(k) => k.spec_name(),
        None => "Peak"@,
    }
}

/// Whether two strings hold the same text, compared byte by byte.
fn same_text(a: &str, b: &str) -> (r: bool)
    ensures
        r == (a@ == b@),
{
    let x = a.as_bytes();
    let y = b.as_bytes();
    proof {
        encode_utf8_decode_utf8(a@);
        encode_utf8_decode_utf8(b@);
    }
    if x.len() != y.len() {
        return false;
    }
    let mut i: usize = 0;
    while i < x.len()
        invariant
            x@ == a.spec_bytes(),
            y@ == b.spec_bytes(),
            x@.len() == y@.len(),
            0 <= i <= x@.len(),
            forall|j: int| 0 <= j < i ==> x@[j] == y@[j],
        decreases x@.len() - i,
    {
        if x[i] != y[i] {
            return false;
        }
        i = i + 1;
    }
    proof {
        assert(x@ =~= y@);
    }
    true
}

impl FilterKind {
    /// The largest valid id; ids run from 0 to this value.
    pub const MAX_ID: u32 = 7;

    /// Stable id of the kind, 0 to 7, in the cyclic order of the variants.
    pub open spec fn spec_id(self) -> nat {
        match self {
            FilterKind::LowPass => 0,
            FilterKind::LowPass2 => 1,
            FilterKind::LowShelf => 2,
            FilterKind::HighPass => 3,
            FilterKind::HighPass2 => 4,
            FilterKind::HighShelf => 5,
            FilterKind::Peak => 6,
            FilterKind::Notch => 7,
        }
    }

    /// The kind after this one in the cyclic order of ids.
    pub open spec fn spec_next(self) -> FilterKind {
        kind_of_id((self.spec_id() + 1) % 8)->0
    }

    /// The kind before this one in the cyclic order of ids.
    pub open spec fn spec_prev(self) -> FilterKind {
        kind_of_id((self.spec_id() + 7) % 8)->0
    }

    /// Whether the gain parameter shapes the response of this kind.
    pub open spec fn spec_uses_gain(self) -> bool {
        match self {
            FilterKind::LowShelf | FilterKind::HighShelf | FilterKind::Peak => true,
            _ => false,
        }
    }

    /// Short label of the kind.
    pub open spec fn spec_abbreviation(self) -> Seq<char> {
        match self {
            FilterKind::LowPass => "LP"@,
            FilterKind::LowPass2 => "L2"@,
            FilterKind::LowShelf => "LS"@,
            FilterKind::HighPass => "HP"@,
            FilterKind::HighPass2 => "H2"@,
            FilterKind::HighShelf => "HS"@,
            FilterKind::Peak => "PK"@,
            FilterKind::Notch => "NT"@,
        }
    }

    /// Full display name of the kind.
    pub open spec fn spec_name(self) -> Seq<char> {
        match self {
            FilterKind::LowPass => "Low Pass"@,
            FilterKind::LowPass2 => "Low Pass 2"@,
            FilterKind::LowShelf => "Low Shelf"@,
            FilterKind::HighPass => "High Pass"@,
            FilterKind::HighPass2 => "High Pass 2"@,
            FilterKind::HighShelf => "High Shelf"@,
            FilterKind::Peak => "Peak"@,
            FilterKind::Notch => "Notch"@,
        }
    }

    pub fn abbreviation(&self) -> (r: &'static str)
        ensures
            r@ == self.spec_abbreviation(),
            r@.len() == 2,
    {
        proof {
            lemma_abbreviations(*self, *self);
        }
        match self {
            FilterKind::LowPass => "LP",
            FilterKind::LowPass2 => "L2",
            FilterKind::LowShelf => "LS",
            FilterKind::HighPass => "HP",
            FilterKind::HighPass2 => "H2",
            FilterKind::HighShelf => "HS",
            FilterKind::Peak => "PK",
            FilterKind::Notch => "NT",
        }
    }

    pub fn uses_gain(&self) -> (r: bool)
        ensures
            r == self.spec_uses_gain(),
    {
        match self {
            FilterKind::LowPass => false,
            FilterKind::LowPass2 => false,
            FilterKind::LowShelf => true,
            FilterKind::HighPass => false,
            FilterKind::HighPass2 => false,
            FilterKind::HighShelf => true,
            FilterKind::Peak => true,
            FilterKind::Notch => false,
        }
    }

    pub fn id(&self) -> (r: u32)
        ensures
            r == self.spec_id(),
    {
        match self {
            FilterKind::LowPass => 0,
            FilterKind::LowPass2 => 1,
            FilterKind::LowShelf => 2,
            FilterKind::HighPass => 3,
            FilterKind::HighPass2 => 4,
            FilterKind::HighShelf => 5,
            FilterKind::Peak => 6,
            FilterKind::Notch => 7,
        }
    }

    /// The kind with the given id, or `None` for an id above `MAX_ID`.
    pub fn from_id(id: u32) -> (r: Option<FilterKind>)
        ensures
            r == kind_of_id(id as nat),
            r is Some <==> id <= Self::MAX_ID,
            r is Some ==> r->0.spec_id() == id,
    {
        match id {
            0 => Some(FilterKind::LowPass),
            1 => Some(FilterKind::LowPass2),
            2 => Some(FilterKind::LowShelf),
            3 => Some(FilterKind::HighPass),
            4 => Some(FilterKind::HighPass2),
            5 => Some(FilterKind::HighShelf),
            6 => Some(FilterKind::Peak),
            7 => Some(FilterKind::Notch),
            _ => None,
        }
    }

    /// Full display name of the kind.
    pub fn display_name(&self) -> (r: &'static str)
        ensures
            r@ == self.spec_name(),
    {
        match self {
            FilterKind::LowPass => "Low Pass",
            FilterKind::LowPass2 => "Low Pass 2",
            FilterKind::LowShelf => "Low Shelf",
            FilterKind::HighPass => "High Pass",
            FilterKind::HighPass2 => "High Pass 2",
            FilterKind::HighShelf => "High Shelf",
            FilterKind::Peak => "Peak",
            FilterKind::Notch => "Notch",
        }
    }

    /// Display string for a kind id, as the parameter layer shows it; an id
    /// that names no kind shows as Peak.
    pub fn to_string(id: u32) -> (r: String)
        ensures
            r@ == name_of_id(id as nat),
    {
        match FilterKind::from_id(id) {
            Some(kind) => kind.display_name().to_owned(),
            None => FilterKind::Peak.display_name().to_owned(),
        }
    }

    /// Kind id parsed from a display string; text that names no kind parses as
    /// Peak's id rather than failing.
    pub fn from_string(text: &str) -> (r: u32)
        ensures
            r == id_of_name(text@),
            r <= Self::MAX_ID,
    {
        if same_text(text, "Low Pass") {
            FilterKind::LowPass.id()
        } else if same_text(text, "Low Pass 2") {
            FilterKind::LowPass2.id()
        } else if same_text(text, "Low Shelf") {
            FilterKind::LowShelf.id()
        } else if same_text(text, "High Pass") {
            FilterKind::HighPass.id()
        } else if same_text(text, "High Pass 2") {
            FilterKind::HighPass2.id()
        } else if same_text(text, "High Shelf") {
            FilterKind::HighShelf.id()
        } else if same_text(text, "Notch") {
            FilterKind::Notch.id()
        } else {
            FilterKind::Peak.id()
        }
    }

    /// The kind with the given id; an id that names no kind (as corrupt
    /// automation data may hold) resolves to Peak.
    pub fn from_id_or_peak(id: u32) -> (r: FilterKind)
        ensures
            r == (if id <= Self::MAX_ID {
                kind_of_id(id as nat)->0
            } else {
                FilterKind::Peak
            }),
    {
        match FilterKind::from_id(id) {
            Some(kind) => kind,
            None => FilterKind::Peak,
        }
    }

    /// The kind before this one in the cyclic order.
    pub fn prev(&self) -> (r: FilterKind)
        ensures
            r == self.spec_prev(),
            r.spec_id() == (self.spec_id() + 7) % 8,
    {
        let id = self.id();
        let prev_id = (id + Self::MAX_ID) % (Self::MAX_ID + 1);
        match FilterKind::from_id(prev_id) {
            Some(k) => k,
            None => *self,
        }
    }

    /// The kind after this one in the cyclic order.
    pub fn next(&self) -> (r: FilterKind)
        ensures
            r == self.spec_next(),
            r.spec_id() == (self.spec_id() + 1) % 8,
    {
        let id = self.id();
        let next_id = (id + 1) % (Self::MAX_ID + 1);
        match FilterKind::from_id(next_id) {
            Some(k) => k,
            None => *self,
        }
    }
}

/// `spec_next` applied `n` times.
pub open spec fn advance(k: FilterKind, n: nat) -> FilterKind
    decreases n,
{
    if n == 0 {
        k
    } else {
        advance(k, (n - 1) as nat).spec_next()
    }
}

/// Every kind has an id of at most `MAX_ID`, and the id maps back to the kind;
/// every id up to `MAX_ID` names a kind with that id, and no larger id
/// (such as 99) names one.
pub proof fn lemma_id_round_trip(k: FilterKind, id: nat)
    ensures
        k.spec_id() <= FilterKind::MAX_ID,
        kind_of_id(k.spec_id()) == Some(k),
        id <= FilterKind::MAX_ID ==> kind_of_id(id) is Some && kind_of_id(id)->0.spec_id() == id,
        id > FilterKind::MAX_ID ==> kind_of_id(id) is None,
{
}

/// Parsing the display string of any valid id gives that id back, and text
/// that is no kind's display name parses as Peak's id.
pub proof fn lemma_name_round_trip(id: nat, text: Seq<char>)
    requires
        id <= FilterKind::MAX_ID,
    ensures
        id_of_name(name_of_id(id)) == id,
        (forall|k: FilterKind| text != #[trigger] k.spec_name()) ==> id_of_name(text)
            == FilterKind::Peak.spec_id(),
{
    reveal_strlit("Low Pass");
    reveal_strlit("Low Pass 2");
    reveal_strlit("Low Shelf");
    reveal_strlit("High Pass");
    reveal_strlit("High Pass 2");
    reveal_strlit("High Shelf");
    reveal_strlit("Peak");
    reveal_strlit("Notch");
    let names = seq![
        "Low Pass"@,
        "Low Pass 2"@,
        "Low Shelf"@,
        "High Pass"@,
        "High Pass 2"@,
        "High Shelf"@,
        "Peak"@,
        "Notch"@,
    ];
    assert forall|i: int, j: int| 0 <= i < j < 8 implies names[i] != names[j] by {
        if names[i].len() == names[j].len() {
            assert(names[i][4] != names[j][4] || names[i][0] != names[j][0]);
        }
    }
    assert(name_of_id(id) == names[id as int]);
    if (forall|k: FilterKind| text != #[trigger] k.spec_name()) {
        assert(text != FilterKind::LowPass.spec_name());
        assert(text != FilterKind::LowPass2.spec_name());
        assert(text != FilterKind::LowShelf.spec_name());
        assert(text != FilterKind::HighPass.spec_name());
        assert(text != FilterKind::HighPass2.spec_name());
        assert(text != FilterKind::HighShelf.spec_name());
        assert(text != FilterKind::Notch.spec_name());
    }
}

proof fn lemma_step_ids(k: FilterKind)
    ensures
        k.spec_next().spec_id() == (k.spec_id() + 1) % 8,
        k.spec_prev().spec_id() == (k.spec_id() + 7) % 8,
{
    match k {
        FilterKind::LowPass => {},
        FilterKind::LowPass2 => {},
        FilterKind::LowShelf => {},
        FilterKind::HighPass => {},
        FilterKind::HighPass2 => {},
        FilterKind::HighShelf => {},
        FilterKind::Peak => {},
        FilterKind::Notch => {},
    }
}

proof fn lemma_id_injective(a: FilterKind, b: FilterKind)
    ensures
        a.spec_id() == b.spec_id() ==> a == b,
{
}

proof fn lemma_advance_id(k: FilterKind, n: nat)
    ensures
        advance(k, n).spec_id() == (k.spec_id() + n) % 8,
    decreases n,
{
    if n > 0 {
        lemma_advance_id(k, (n - 1) as nat);
        lemma_step_ids(advance(k, (n - 1) as nat));
    }
}

/// Every abbreviation has two letters, and no two kinds share one.
pub proof fn lemma_abbreviations(k1: FilterKind, k2: FilterKind)
    ensures
        k1.spec_abbreviation().len() == 2,
        k1 != k2 ==> k1.spec_abbreviation() != k2.spec_abbreviation(),
{
    reveal_strlit("LP");
    reveal_strlit("L2");
    reveal_strlit("LS");
    reveal_strlit("HP");
    reveal_strlit("H2");
    reveal_strlit("HS");
    reveal_strlit("PK");
    reveal_strlit("NT");
    if k1 != k2 {
        let a = k1.spec_abbreviation();
        let b = k2.spec_abbreviation();
        assert(a[0] != b[0] || a[1] != b[1]);
    }
}

/// Stepping to the next kind eight times comes back to the starting kind, and
/// stepping back then forward is the identity.
pub proof fn lemma_cyclic_order(k: FilterKind)
    ensures
        advance(k, 8) == k,
        k.spec_prev().spec_next() == k,
        k.spec_next().spec_prev() == k,
{
    lemma_advance_id(k, 8);
    lemma_id_injective(advance(k, 8), k);
    lemma_step_ids(k);
    lemma_step_ids(k.spec_prev());
    lemma_step_ids(k.spec_next());
    lemma_id_injective(k.spec_prev().spec_next(), k);
    lemma_id_injective(k.spec_next().spec_prev(), k);
}

} // verus!
