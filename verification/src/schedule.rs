use vstd::prelude::*;

verus! {

use vstd::string::StringExecFns;

/// One labelled field of a rendered announcement: label, body, inline flag.
pub type RenderedField = (String, String, bool);

/// One scheduled broadcast unit: a day number used as the lookup key, an
/// opaque species payload, a free-text version label, and the ordered hints
/// that are rendered as individually labelled fields.
pub struct ContestDay {
    pub day: u8,
    pub species: u8,
    pub version: String,
    pub hints: Vec<String>,
}

/// Mathematical image of a `ContestDay`: plain integers and character
/// sequences, so that contracts can speak of the content directly.
#[verifier::ext_equal]
pub ghost struct DayView {
    pub day: u8,
    pub species: u8,
    pub version: Seq<char>,
    pub hints: Seq<Seq<char>>,
}

impl View for ContestDay {
    type V = DayView;

    open spec fn view(&self) -> DayView {
        DayView {
            day: self.day,
            species: self.species,
            version: self.version@,
            hints: self.hints@.map_values(|h: String| h@),
        }
    }
}

fn clone_strings(v: &Vec<String>) -> (r: Vec<String>)
    ensures
        r@ == v@,
{
    let mut r: Vec<String> = Vec::new();
    let mut i: usize = 0;
    while i < v.len()
        invariant
            i <= v.len(),
            r@ =~= v@.take(i as int),
        decreases v.len() - i,
    {
        r.push(v[i].clone());
        i += 1;
    }
    proof {
        assert(v@.take(v.len() as int) =~= v@);
    }
    r
}

impl Clone for ContestDay {
    fn clone(&self) -> (r: Self)
        ensures
            r@ == self@,
    {
        ContestDay {
            day: self.day,
            species: self.species,
            version: self.version.clone(),
            hints: clone_strings(&self.hints),
        }
    }
}

/// The first entry of `days` whose key equals `day`, if any. Duplicate keys
/// are resolved in favour of the earliest entry.
pub open spec fn first_match(days: Seq<DayView>, day: u8) -> Option<DayView>
    decreases days.len(),
{
    if days.len() == 0 {
        None
    } else if days[0].day == day {
        Some(days[0])
    } else {
        first_match(days.drop_first(), day)
    }
}

/// The largest day key present in `days`, if any: the terminal day marker.
pub open spec fn max_day(days: Seq<DayView>) -> Option<u8>
    decreases days.len(),
{
    if days.len() == 0 {
        None
    } else {
        let last: u8 = days.last().day;
        match max_day(days.drop_last()) {
            None => Some(last),
            Some(m) => Some(if last > m { last } else { m }),
        }
    }
}

/// The character for one decimal digit.
pub open spec fn digit_char(d: nat) -> char {
    if d == 0 {
        '0'
    } else if d == 1 {
        '1'
    } else if d == 2 {
        '2'
    } else if d == 3 {
        '3'
    } else if d == 4 {
        '4'
    } else if d == 5 {
        '5'
    } else if d == 6 {
        '6'
    } else if d == 7 {
        '7'
    } else if d == 8 {
        '8'
    } else {
        '9'
    }
}

/// The decimal rendering of `n`, most significant digit first, no leading
/// zeroes (a single `'0'` for zero).
pub open spec fn dec_digits(n: nat) -> Seq<char>
    decreases n,
{
    if n < 10 {
        seq![digit_char(n)]
    } else {
        dec_digits(n / 10).push(digit_char(n % 10))
    }
}

/// The label of the 1-based hint number `n`: `"Hint {n}"`.
pub open spec fn hint_label(n: nat) -> Seq<char> {
    "Hint "@ + dec_digits(n)
}

/// The title of a day announcement: `"Day {d}"`.
pub open spec fn day_title(d: u8) -> Seq<char> {
    "Day "@ + dec_digits(d as nat)
}

fn digit_str(d: usize) -> (r: &'static str)
    requires
        d < 10,
    ensures
        r@ == seq![digit_char(d as nat)],
{
    let r: &'static str = match d {
        0 => "0",
        1 => "1",
        2 => "2",
        3 => "3",
        4 => "4",
        5 => "5",
        6 => "6",
        7 => "7",
        8 => "8",
        _ => "9",
    };
    proof {
        reveal_strlit("0");
        reveal_strlit("1");
        reveal_strlit("2");
        reveal_strlit("3");
        reveal_strlit("4");
        reveal_strlit("5");
        reveal_strlit("6");
        reveal_strlit("7");
        reveal_strlit("8");
        reveal_strlit("9");
        assert(r@ =~= seq![digit_char(d as nat)]);
    }
    r
}

/// The decimal rendering of `n` as an owned string.
pub fn usize_to_string(n: usize) -> (s: String)
    ensures
        s@ == dec_digits(n as nat),
    decreases n,
{
    if n < 10 {
        let s = digit_str(n).to_owned();
        s
    } else {
        let mut s = usize_to_string(n / 10);
        s.append(digit_str(n % 10));
        proof {
            assert(s@ =~= dec_digits(n as nat));
        }
        s
    }
}

impl ContestDay {
    /// The hints rendered as labelled fields: element `i` carries the label
    /// `"Hint {i+1}"`, the hint text itself, and the inline flag set.
    pub fn hints_to_fields(&self) -> (r: Vec<RenderedField>)
        ensures
            r@.len() == self@.hints.len(),
            forall|i: int|
                0 <= i < r@.len() ==> {
                    &&& (#[trigger] r@[i]).0@ == hint_label((i + 1) as nat)
                    &&& r@[i].1@ == self@.hints[i]
                    &&& r@[i].2 == true
                },
    {
        let mut r: Vec<RenderedField> = Vec::new();
        let mut i: usize = 0;
        while i < self.hints.len()
            invariant
                i <= self.hints.len(),
                r@.len() == i,
                forall|j: int|
                    0 <= j < i ==> {
                        &&& (#[trigger] r@[j]).0@ == hint_label((j + 1) as nat)
                        &&& r@[j].1@ == self@.hints[j]
                        &&& r@[j].2 == true
                    },
            decreases self.hints.len() - i,
        {
            let mut label = "Hint ".to_owned();
            let num = usize_to_string(i + 1);
            label.append(num.as_str());
            let body = self.hints[i].clone();
            r.push((label, body, true));
            i += 1;
        }
        r
    }

    /// The non-inline field carrying the version label: `("Version", version)`.
    pub fn version_field(&self) -> (f: RenderedField)
        ensures
            f.0@ == "Version"@,
            f.1@ == self@.version,
            f.2 == false,
    {
        ("Version".to_owned(), self.version.clone(), false)
    }

    /// The announcement title, `"Day {day}"`.
    pub fn title(&self) -> (t: String)
        ensures
            t@ == day_title(self@.day),
    {
        let mut t = "Day ".to_owned();
        let num = usize_to_string(self.day as usize);
        t.append(num.as_str());
        t
    }

    /// The full field list of a day announcement: the version field first,
    /// then one field per hint in original order.
    pub fn render_fields(&self) -> (r: Vec<RenderedField>)
        ensures
            r@.len() == self@.hints.len() + 1,
            r@[0].0@ == "Version"@,
            r@[0].1@ == self@.version,
            r@[0].2 == false,
            forall|i: int|
                1 <= i < r@.len() ==> {
                    &&& (#[trigger] r@[i]).0@ == hint_label(i as nat)
                    &&& r@[i].1@ == self@.hints[i - 1]
                    &&& r@[i].2 == true
                },
    {
        let mut r: Vec<RenderedField> = Vec::new();
        r.push(self.version_field());
        let mut hf = self.hints_to_fields();
        r.append(&mut hf);
        r
    }
}

/// An ordered collection of `ContestDay`, keyed logically by `day`.
/// Immutable after construction; replaced wholesale on reload.
pub struct ContestDetails(pub Vec<ContestDay>);

impl View for ContestDetails {
    type V = Seq<DayView>;

    open spec fn view(&self) -> Seq<DayView> {
        self.0@.map_values(|d: ContestDay| d@)
    }
}

impl ContestDetails {
    /// Exact-day lookup: the first entry carrying the requested key.
    pub fn get_day(&self, day: u8) -> (r: Option<&ContestDay>)
        ensures
            match r {
                Some(d) => first_match(self@, day) == Some(d@),
                None => first_match(self@, day) is None,
            },
    {
        proof {
            assert(self@.skip(0) =~= self@);
        }
        let mut i: usize = 0;
        while i < self.0.len()
            invariant
                i <= self.0.len(),
                first_match(self@, day) == first_match(self@.skip(i as int), day),
            decreases self.0.len() - i,
        {
            if self.0[i].day == day {
                proof {
                    assert(self@.skip(i as int)[0] == self@[i as int]);
                }
                return Some(&self.0[i]);
            }
            proof {
                assert(self@.skip(i as int)[0] == self@[i as int]);
                assert(self@.skip(i as int).drop_first() =~= self@.skip(i as int + 1));
            }
            i += 1;
        }
        proof {
            assert(self@.skip(self.0.len() as int) =~= Seq::<DayView>::empty());
        }
        None
    }

    /// The maximum day value present, `None` on an empty schedule.
    pub fn get_last_day(&self) -> (r: Option<u8>)
        ensures
            r == max_day(self@),
    {
        let mut best: Option<u8> = None;
        proof {
            assert(self@.take(0) =~= Seq::<DayView>::empty());
        }
        let mut i: usize = 0;
        while i < self.0.len()
            invariant
                i <= self.0.len(),
                best == max_day(self@.take(i as int)),
            decreases self.0.len() - i,
        {
            let d = self.0[i].day;
            proof {
                assert(self@.take(i as int + 1).drop_last() =~= self@.take(i as int));
                assert(self@.take(i as int + 1).last() == self@[i as int]);
            }
            best = match best {
                None => Some(d),
                Some(m) => Some(if d > m { d } else { m }),
            };
            i += 1;
        }
        proof {
            assert(self@.take(self.0.len() as int) =~= self@);
        }
        best
    }
}

} // verus!
