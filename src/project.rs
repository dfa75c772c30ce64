use vstd::prelude::*;

use crate::json::{get_field, lookup, Json};
use crate::ui::{slider_value, slider_time};

verus! {

/// Per-waveform settings. `time` is carried through the file format but does
/// not govern how long the waveform plays: the project's own `time` does.
#[derive(Clone, Copy, Debug, PartialEq, Eq, Structural)]
pub struct Parameters {
    pub time: usize,
}

impl Default for Parameters {
    fn default() -> (r: Self)
        ensures
            r.time == 1,
    {
        Parameters { time: 1 }
    }
}

/// One oscillator of a project's sequence, tagged by kind.
#[derive(Clone, Copy, Debug, PartialEq, Eq, Structural)]
pub enum Waveform {
    Sine(Parameters),
    Saw(Parameters),
    Square(Parameters),
    Noise(Parameters),
    NoiseSimplex(Parameters),
}

/// Why a JSON document does not describe a project.
#[derive(Clone, Copy, Debug, PartialEq, Eq, Structural)]
pub enum LoadError {
    /// The document is not an object.
    NotAnObject,
    /// The object has no `time` field.
    MissingTime,
    /// `time` is not a non-negative integer that fits in `usize`.
    InvalidTime,
    /// The object has no `sequence` field.
    MissingSequence,
    /// `sequence` is not an array.
    InvalidSequence,
    /// The entry at `index` of `sequence` is not a waveform.
    InvalidWaveform { index: usize },
}

/// A duration in seconds and an ordered sequence of waveforms to play.
#[derive(Debug)]
pub struct Project {
    pub time: usize,
    sequence: Vec<Waveform>,
}

/// What a project holds, as mathematical values.
pub struct ProjectView {
    pub time: usize,
    pub sequence: Seq<Waveform>,
}

impl View for Project {
    type V = ProjectView;

    closed spec fn view(&self) -> ProjectView {
        ProjectView { time: self.time, sequence: self.sequence@ }
    }
}

/// The key that tags a waveform's kind in the file format.
pub open spec fn waveform_name(w: Waveform) -> Seq<char> {
    match w {
        Waveform::Sine(_) => "Sine"@,
        Waveform::Saw(_) => "Saw"@,
        Waveform::Square(_) => "Square"@,
        Waveform::Noise(_) => "Noise"@,
        Waveform::NoiseSimplex(_) => "NoiseSimplex"@,
    }
}

pub open spec fn waveform_parameters(w: Waveform) -> Parameters {
    match w {
        Waveform::Sine(p) => p,
        Waveform::Saw(p) => p,
        Waveform::Square(p) => p,
        Waveform::Noise(p) => p,
        Waveform::NoiseSimplex(p) => p,
    }
}

/// The waveform whose kind is tagged `name`, if any.
pub open spec fn waveform_named(name: Seq<char>, p: Parameters) -> Option<Waveform> {
    if name == "Sine"@ {
        Some(Waveform::Sine(p))
    } else if name == "Saw"@ {
        Some(Waveform::Saw(p))
    } else if name == "Square"@ {
        Some(Waveform::Square(p))
    } else if name == "Noise"@ {
        Some(Waveform::Noise(p))
    } else if name == "NoiseSimplex"@ {
        Some(Waveform::NoiseSimplex(p))
    } else {
        None
    }
}

/// A duration read from the file format.
pub open spec fn time_of(j: Json) -> Option<usize> {
    match j {
        Json::UInt(n) => if n <= usize::MAX {
            Some(n as usize)
        } else {
            None
        },
        _ => None,
    }
}

/// The parameters an object describes; an absent `time` means one second.
pub open spec fn parameters_of(j: Json) -> Option<Parameters> {
    match j {
        Json::Object(f) => match lookup(f@, "time"@) {
            None => Some(Parameters { time: 1 }),
            Some(t) => match time_of(t) {
                Some(n) => Some(Parameters { time: n }),
                None => None,
            },
        },
        _ => None,
    }
}

/// The waveform an object of exactly one key describes: the key names the
/// kind, its value holds the parameters.
pub open spec fn waveform_of(j: Json) -> Option<Waveform> {
    match j {
        Json::Object(f) => if f@.len() == 1 {
            match parameters_of(f@[0].1) {
                Some(p) => waveform_named(f@[0].0@, p),
                None => None,
            }
        } else {
            None
        },
        _ => None,
    }
}

/// The waveforms that `items` describe, or the index of the first item that
/// describes none.
pub open spec fn sequence_of(items: Seq<Json>) -> Result<Seq<Waveform>, nat>
    decreases items.len(),
{
    if items.len() == 0 {
        Ok(Seq::empty())
    } else {
        match sequence_of(items.drop_last()) {
            Err(k) => Err(k),
            Ok(ws) => match waveform_of(items.last()) {
                Some(w) => Ok(ws.push(w)),
                None => Err((items.len() - 1) as nat),
            },
        }
    }
}

/// The project a document describes, or the first fault found in it: the
/// document must be an object whose `time` is a duration and whose
/// `sequence` is an array of waveforms. Other fields are ignored.
pub open spec fn project_of(j: Json) -> Result<ProjectView, LoadError> {
    match j {
        Json::Object(f) => match lookup(f@, "time"@) {
            None => Err(LoadError::MissingTime),
            Some(t) => match time_of(t) {
                None => Err(LoadError::InvalidTime),
                Some(time) => match lookup(f@, "sequence"@) {
                    None => Err(LoadError::MissingSequence),
                    Some(Json::Array(items)) => project_with_sequence(time, sequence_of(items@)),
                    Some(_) => Err(LoadError::InvalidSequence),
                },
            },
        },
        _ => Err(LoadError::NotAnObject),
    }
}

/// The outcome of decoding a project whose duration is `time`, once its
/// sequence has been decoded.
pub open spec fn project_with_sequence(time: usize, ws: Result<Seq<Waveform>, nat>) -> Result<
    ProjectView,
    LoadError,
> {
    match ws {
        Ok(ws) => Ok(ProjectView { time, sequence: ws }),
        Err(k) => Err(LoadError::InvalidWaveform { index: k as usize }),
    }
}

/// `j` is the encoding of `p`: `{"time": p.time}`.
pub open spec fn is_parameters_json(j: Json, p: Parameters) -> bool {
    match j {
        Json::Object(f) => f@.len() == 1 && f@[0].0@ == "time"@ && f@[0].1 == Json::UInt(
            p.time as u64,
        ),
        _ => false,
    }
}

/// `j` is the encoding of `w`: an object whose one key names the kind and
/// whose value encodes the parameters.
pub open spec fn is_waveform_json(j: Json, w: Waveform) -> bool {
    match j {
        Json::Object(f) => f@.len() == 1 && f@[0].0@ == waveform_name(w) && is_parameters_json(
            f@[0].1,
            waveform_parameters(w),
        ),
        _ => false,
    }
}

/// `j` is the encoding of `p`: `{"time": .., "sequence": [..]}`, with the
/// waveforms in order.
pub open spec fn is_project_json(j: Json, p: ProjectView) -> bool {
    match j {
        Json::Object(f) => f@.len() == 2 && f@[0].0@ == "time"@ && f@[0].1 == Json::UInt(
            p.time as u64,
        ) && f@[1].0@ == "sequence"@ && match f@[1].1 {
            Json::Array(items) => items@.len() == p.sequence.len() && forall|i: int|
                0 <= i < items@.len() ==> #[trigger] is_waveform_json(items@[i], p.sequence[i]),
            _ => false,
        },
        _ => false,
    }
}

fn key(name: &str) -> (r: String)
    ensures
        r@ == name@,
{
    name.to_owned()
}

fn time_from_json(j: &Json) -> (r: Option<usize>)
    ensures
        r == time_of(*j),
{
    match j {
        Json::UInt(n) => if *n <= usize::MAX as u64 {
            Some(*n as usize)
        } else {
            None
        },
        _ => None,
    }
}

impl Parameters {
    pub fn new(time: usize) -> (r: Self)
        ensures
            r.time == time,
    {
        Parameters { time }
    }

    /// Encodes the parameters as `{"time": ..}`.
    pub fn to_json(&self) -> (r: Json)
        ensures
            is_parameters_json(r, *self),
    {
        let mut f: Vec<(String, Json)> = Vec::new();
        f.push((key("time"), Json::UInt(self.time as u64)));
        Json::Object(f)
    }

    /// Decodes parameters; an absent `time` gives one second.
    pub fn from_json(j: &Json) -> (r: Option<Self>)
        ensures
            r == parameters_of(*j),
    {
        match j {
            Json::Object(f) => {
                let k = key("time");
                match get_field(f, &k) {
                    None => Some(Parameters { time: 1 }),
                    Some(t) => match time_from_json(t) {
                        Some(n) => Some(Parameters { time: n }),
                        None => None,
                    },
                }
            },
            _ => None,
        }
    }
}

fn waveform_from_name(name: &String, p: Parameters) -> (r: Option<Waveform>)
    ensures
        r == waveform_named(name@, p),
{
    if *name == key("Sine") {
        Some(Waveform::Sine(p))
    } else if *name == key("Saw") {
        Some(Waveform::Saw(p))
    } else if *name == key("Square") {
        Some(Waveform::Square(p))
    } else if *name == key("Noise") {
        Some(Waveform::Noise(p))
    } else if *name == key("NoiseSimplex") {
        Some(Waveform::NoiseSimplex(p))
    } else {
        None
    }
}

impl Waveform {
    /// The parameters this waveform carries.
    pub fn parameters(&self) -> (r: Parameters)
        ensures
            r == waveform_parameters(*self),
    {
        match self {
            Waveform::Sine(p) => *p,
            Waveform::Saw(p) => *p,
            Waveform::Square(p) => *p,
            Waveform::Noise(p) => *p,
            Waveform::NoiseSimplex(p) => *p,
        }
    }

    /// The key that tags this waveform's kind.
    pub fn name(&self) -> (r: String)
        ensures
            r@ == waveform_name(*self),
    {
        match self {
            Waveform::Sine(_) => key("Sine"),
            Waveform::Saw(_) => key("Saw"),
            Waveform::Square(_) => key("Square"),
            Waveform::Noise(_) => key("Noise"),
            Waveform::NoiseSimplex(_) => key("NoiseSimplex"),
        }
    }

    /// Encodes the waveform as `{"<kind>": {"time": ..}}`.
    pub fn to_json(&self) -> (r: Json)
        ensures
            is_waveform_json(r, *self),
    {
        let mut f: Vec<(String, Json)> = Vec::new();
        f.push((self.name(), self.parameters().to_json()));
        Json::Object(f)
    }

    /// Decodes a waveform from an object with exactly one key naming its kind.
    pub fn from_json(j: &Json) -> (r: Option<Self>)
        ensures
            r == waveform_of(*j),
    {
        match j {
            Json::Object(f) => {
                if f.len() == 1 {
                    match Parameters::from_json(&f[0].1) {
                        Some(p) => waveform_from_name(&f[0].0, p),
                        None => None,
                    }
                } else {
                    None
                }
            },
            _ => None,
        }
    }
}

proof fn lemma_sequence_error_persists(s: Seq<Json>, n: int)
    requires
        0 <= n <= s.len(),
        sequence_of(s.take(n)) is Err,
    ensures
        sequence_of(s) == sequence_of(s.take(n)),
    decreases s.len() - n,
{
    if n < s.len() {
        assert(s.take(n + 1).drop_last() =~= s.take(n));
        lemma_sequence_error_persists(s, n + 1);
    } else {
        assert(s.take(n) =~= s);
    }
}

impl Clone for Project {
    fn clone(&self) -> (r: Self)
        ensures
            r@ == self@,
    {
        let mut sequence: Vec<Waveform> = Vec::new();
        let mut i: usize = 0;
        while i < self.sequence.len()
            invariant
                0 <= i <= self.sequence@.len(),
                sequence@ == self.sequence@.take(i as int),
            decreases self.sequence@.len() - i,
        {
            sequence.push(self.sequence[i]);
            i += 1;
            assert(sequence@ =~= self.sequence@.take(i as int));
        }
        assert(self.sequence@.take(i as int) =~= self.sequence@);
        Project { time: self.time, sequence }
    }
}

impl Project {
    pub fn new(time: usize, sequence: Vec<Waveform>) -> (r: Self)
        ensures
            r@.time == time,
            r@.sequence == sequence@,
    {
        Project { time, sequence }
    }

    /// The duration of each waveform, in seconds.
    pub fn time(&self) -> (r: usize)
        ensures
            r == self@.time,
    {
        self.time
    }

    /// The waveforms in playing order.
    pub fn sequence(&self) -> (r: &[Waveform])
        ensures
            r@ == self@.sequence,
    {
        self.sequence.as_slice()
    }

    /// Sets the duration through the data model, with no bound.
    pub fn set_time(&mut self, time: usize)
        ensures
            final(self)@.time == time,
            final(self)@.sequence == old(self)@.sequence,
    {
        self.time = time;
    }

    /// Sets the duration as the duration slider does: held to its range.
    pub fn set_time_from_slider(&mut self, requested: usize)
        ensures
            final(self)@.time as int == slider_value(requested as int),
            final(self)@.sequence == old(self)@.sequence,
    {
        self.time = slider_time(requested);
    }

    /// Encodes the project as `{"time": .., "sequence": [..]}`.
    pub fn to_json(&self) -> (r: Json)
        ensures
            is_project_json(r, self@),
    {
        let mut items: Vec<Json> = Vec::new();
        let mut i: usize = 0;
        while i < self.sequence.len()
            invariant
                0 <= i <= self.sequence@.len(),
                items@.len() == i,
                forall|k: int| 0 <= k < i ==> #[trigger] is_waveform_json(items@[k], self.sequence@[k]),
            decreases self.sequence@.len() - i,
        {
            items.push(self.sequence[i].to_json());
            i += 1;
        }
        let mut f: Vec<(String, Json)> = Vec::new();
        f.push((key("time"), Json::UInt(self.time as u64)));
        f.push((key("sequence"), Json::Array(items)));
        Json::Object(f)
    }

    /// Decodes a project, failing with the first fault that `project_of` names.
    pub fn from_json(j: &Json) -> (r: Result<Self, LoadError>)
        ensures
            match r {
                Ok(p) => project_of(*j) == Ok::<ProjectView, LoadError>(p@),
                Err(e) => project_of(*j) == Err::<ProjectView, LoadError>(e),
            },
    {
        let f = match j {
            Json::Object(f) => f,
            _ => {
                return Err(LoadError::NotAnObject);
            },
        };
        let time = match get_field(f, &key("time")) {
            None => {
                return Err(LoadError::MissingTime);
            },
            Some(t) => match time_from_json(t) {
                None => {
                    return Err(LoadError::InvalidTime);
                },
                Some(n) => n,
            },
        };
        let items = match get_field(f, &key("sequence")) {
            None => {
                return Err(LoadError::MissingSequence);
            },
            Some(Json::Array(items)) => items,
            Some(_) => {
                return Err(LoadError::InvalidSequence);
            },
        };
        let mut sequence: Vec<Waveform> = Vec::new();
        let mut i: usize = 0;
        assert(items@.take(0) =~= Seq::<Json>::empty());
        assert(project_of(*j) == project_with_sequence(time, sequence_of(items@)));
        while i < items.len()
            invariant
                project_of(*j) == project_with_sequence(time, sequence_of(items@)),
                0 <= i <= items@.len(),
                sequence_of(items@.take(i as int)) == Ok::<Seq<Waveform>, nat>(sequence@),
            decreases items@.len() - i,
        {
            assert(items@.take(i + 1).drop_last() =~= items@.take(i as int));
            assert(items@.take(i + 1).last() == items@[i as int]);
            match Waveform::from_json(&items[i]) {
                Some(w) => {
                    sequence.push(w);
                },
                None => {
                    proof {
                        assert(waveform_of(items@[i as int]) is None);
                        assert(sequence_of(items@.take(i + 1)) == Err::<Seq<Waveform>, nat>(
                            i as nat,
                        ));
                        lemma_sequence_error_persists(items@, i + 1);
                    }
                    return Err(LoadError::InvalidWaveform { index: i });
                },
            }
            i += 1;
        }
        assert(items@.take(items@.len() as int) =~= items@);
        Ok(Project { time, sequence })
    }
}

/// Decoding the encoding of any parameters gives them back.
pub proof fn lemma_parameters_round_trip(j: Json, p: Parameters)
    requires
        is_parameters_json(j, p),
    ensures
        parameters_of(j) == Some(p),
{
    if let Json::Object(f) = j {
        assert(lookup(f@, "time"@) == Some(f@[0].1));
    }
}

proof fn lemma_waveform_named_inverts(w: Waveform)
    ensures
        waveform_named(waveform_name(w), waveform_parameters(w)) == Some(w),
{
    reveal_strlit("Sine");
    reveal_strlit("Saw");
    reveal_strlit("Square");
    reveal_strlit("Noise");
    reveal_strlit("NoiseSimplex");
    assert("Sine"@.len() == 4);
    assert("Saw"@.len() == 3);
    assert("Square"@.len() == 6);
    assert("Noise"@.len() == 5);
    assert("NoiseSimplex"@.len() == 12);
}

/// Decoding the encoding of any waveform, of any kind and with any
/// parameters, gives it back.
pub proof fn lemma_waveform_round_trip(j: Json, w: Waveform)
    requires
        is_waveform_json(j, w),
    ensures
        waveform_of(j) == Some(w),
{
    if let Json::Object(f) = j {
        lemma_parameters_round_trip(f@[0].1, waveform_parameters(w));
        lemma_waveform_named_inverts(w);
    }
}

proof fn lemma_sequence_round_trip(items: Seq<Json>, ws: Seq<Waveform>)
    requires
        items.len() == ws.len(),
        forall|i: int| 0 <= i < items.len() ==> #[trigger] is_waveform_json(items[i], ws[i]),
    ensures
        sequence_of(items) == Ok::<Seq<Waveform>, nat>(ws),
    decreases items.len(),
{
    if items.len() > 0 {
        let n = items.len() - 1;
        assert forall|i: int| 0 <= i < n implies #[trigger] is_waveform_json(
            items.drop_last()[i],
            ws.drop_last()[i],
        ) by {
            assert(is_waveform_json(items[i], ws[i]));
        }
        lemma_sequence_round_trip(items.drop_last(), ws.drop_last());
        assert(is_waveform_json(items[n], ws[n]));
        lemma_waveform_round_trip(items.last(), ws.last());
        assert(ws.drop_last().push(ws.last()) =~= ws);
    } else {
        assert(ws =~= Seq::<Waveform>::empty());
    }
}

/// Decoding the encoding of any project, whatever its duration, gives it back.
pub proof fn lemma_project_round_trip(j: Json, p: ProjectView)
    requires
        is_project_json(j, p),
    ensures
        project_of(j) == Ok::<ProjectView, LoadError>(p),
{
    if let Json::Object(f) = j {
        reveal_strlit("time");
        reveal_strlit("sequence");
        assert(lookup(f@, "time"@) == Some(f@[0].1));
        assert("time"@.len() == 4);
        assert("sequence"@.len() == 8);
        assert(f@.drop_first()[0] == f@[1]);
        assert(lookup(f@.drop_first(), "sequence"@) == Some(f@[1].1));
        assert(lookup(f@, "sequence"@) == Some(f@[1].1));
        if let Json::Array(items) = f@[1].1 {
            lemma_sequence_round_trip(items@, p.sequence);
        }
    }
}

/// A document that decodes to a project, once that project is encoded again,
/// decodes to the same project: decoding and re-encoding is stable.
pub proof fn lemma_reencoding_is_stable(j: Json, reencoded: Json, p: ProjectView)
    requires
        project_of(j) == Ok::<ProjectView, LoadError>(p),
        is_project_json(reencoded, p),
    ensures
        project_of(reencoded) == project_of(j),
{
    lemma_project_round_trip(reencoded, p);
}

/// Parameters decoded from an object without a `time` field last one second.
pub proof fn lemma_absent_time_is_one_second(j: Json)
    requires
        j matches Json::Object(f) && lookup(f@, "time"@) is None,
    ensures
        parameters_of(j) == Some(Parameters { time: 1 }),
{
}

/// A document without a `sequence` field is refused, never read as an empty
/// sequence.
pub proof fn lemma_missing_sequence_is_refused(j: Json)
    requires
        j matches Json::Object(f) && lookup(f@, "sequence"@) is None,
    ensures
        project_of(j) is Err,
{
}

} // verus!
