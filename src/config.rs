use crate::error::FFError;
use crate::graph::{bind, bind_name, names_unique, names_view};
use crate::polynomial::{Polynomial, Term, TermModel};
use crate::scalar::Scalar;
use crate::text::{parse_usize, usize_value};
use vstd::prelude::*;
use vstd::string::StringExecFns;

verus! {

/// What a configuration holds: the polynomials to solve together, each a
/// sequence of terms, and the initial value of each variable.
pub struct ConfigModel<V> {
    pub polys: Seq<Seq<TermModel<V>>>,
    pub init: Seq<(Seq<char>, V)>,
}

/// The initial values after the pairs `name@value@name@value...` of `ws`;
/// `None` when a value is missing or is no number.
pub open spec fn init_pairs<V: Scalar>(ws: Seq<String>, init: Seq<(Seq<char>, V)>) -> Option<
    Seq<(Seq<char>, V)>,
>
    decreases ws.len(),
{
    if ws.len() == 0 {
        Some(init)
    } else if ws.len() < 2 {
        None
    } else {
        match V::spec_parse(ws[1]) {
            Some(v) => init_pairs(ws.subrange(2, ws.len() as int), bind_name(init, ws[0]@, v)),
            None => None,
        }
    }
}

/// The terms that `ws` lists after those in `acc`. Each term takes a marker
/// word and its coefficient, then a variable name and its order; a term
/// without a variable ends the list. `None` when a word is missing or a
/// number cannot be read.
pub open spec fn term_list<V: Scalar>(ws: Seq<String>, acc: Seq<TermModel<V>>) -> Option<
    Seq<TermModel<V>>,
>
    decreases ws.len(),
{
    if ws.len() == 0 {
        Some(acc)
    } else if ws.len() < 2 {
        None
    } else {
        match V::spec_parse(ws[1]) {
            None => None,
            Some(c) => if ws.len() == 2 {
                Some(acc.push(TermModel { coefficient: c, variables: Seq::empty() }))
            } else if ws.len() < 4 {
                None
            } else {
                match usize_value(ws[3]@) {
                    None => None,
                    Some(o) => term_list(
                        ws.subrange(4, ws.len() as int),
                        acc.push(TermModel { coefficient: c, variables: seq![(ws[2]@, o)] }),
                    ),
                }
            },
        }
    }
}

/// The configuration after the line of words `ws`: a line led by `i` gives
/// initial values, one led by `c` gives a polynomial, any other is ignored.
pub open spec fn line_step<V: Scalar>(ws: Seq<String>, m: ConfigModel<V>) -> Option<ConfigModel<V>> {
    if ws.len() == 0 {
        None
    } else if ws[0]@ == "i"@ {
        match init_pairs(ws.subrange(1, ws.len() as int), m.init) {
            Some(init) => Some(ConfigModel { polys: m.polys, init }),
            None => None,
        }
    } else if ws[0]@ == "c"@ {
        match term_list(ws, Seq::empty()) {
            Some(terms) => Some(ConfigModel { polys: m.polys.push(terms), init: m.init }),
            None => None,
        }
    } else {
        Some(m)
    }
}

/// The configuration after the lines `lines`, in order; `None` when one of
/// them cannot be read.
pub open spec fn lines_step<V: Scalar>(lines: Seq<Seq<String>>, m: ConfigModel<V>) -> Option<
    ConfigModel<V>,
>
    decreases lines.len(),
{
    if lines.len() == 0 {
        Some(m)
    } else {
        match line_step(lines[0], m) {
            Some(m1) => lines_step(lines.drop_first(), m1),
            None => None,
        }
    }
}

pub open spec fn lines_view(lines: Seq<Vec<String>>) -> Seq<Seq<String>> {
    lines.map_values(|l: Vec<String>| l@)
}

fn parse_failed() -> (e: FFError)
    ensures
        e is Parse,
{
    FFError::Parse(String::from_str("parse fiailed!!!"))
}

fn invalid_number(word: &String) -> (e: FFError)
    ensures
        e is Parse,
{
    let mut m = String::from_str("invalid number: ");
    m.append(word.as_str());
    FFError::Parse(m)
}

/// Polynomials to solve together, and the initial values of their variables.
#[derive(Debug)]
pub struct PolynomialConfig<V> {
    multi_poly: Vec<Polynomial<V>>,
    init: Vec<(String, V)>,
}

impl<V> PolynomialConfig<V> {
    pub closed spec fn view(&self) -> ConfigModel<V> {
        ConfigModel {
            polys: self.multi_poly@.map_values(|p: Polynomial<V>| p.view()),
            init: names_view(self.init@),
        }
    }

    /// Each variable has one initial value.
    pub open spec fn wf(&self) -> bool {
        names_unique(self.view().init)
    }
}

impl<V: Scalar> PolynomialConfig<V> {
    pub fn new() -> (c: PolynomialConfig<V>)
        ensures
            c.view().polys == Seq::<Seq<TermModel<V>>>::empty(),
            c.view().init == Seq::<(Seq<char>, V)>::empty(),
            c.wf(),
    {
        let c = PolynomialConfig { multi_poly: Vec::new(), init: Vec::new() };
        assert(c.view().polys =~= Seq::<Seq<TermModel<V>>>::empty());
        assert(c.view().init =~= Seq::<(Seq<char>, V)>::empty());
        c
    }

    pub fn polynomials(&self) -> (r: &Vec<Polynomial<V>>)
        ensures
            r@.map_values(|p: Polynomial<V>| p.view()) == self.view().polys,
    {
        &self.multi_poly
    }

    pub fn initial_values(&self) -> (r: &Vec<(String, V)>)
        ensures
            names_view(r@) == self.view().init,
    {
        &self.init
    }

    /// Reads a line `i@name@value@name@value...`.
    fn parse_init(&mut self, ws: &Vec<String>) -> (r: Result<(), FFError>)
        requires
            old(self).wf(),
            ws.len() > 0,
        ensures
            final(self).wf(),
            match r {
                Ok(()) => init_pairs(ws@.subrange(1, ws.len() as int), old(self).view().init)
                    == Some(final(self).view().init) && final(self).view().polys == old(
                    self,
                ).view().polys,
                Err(e) => init_pairs(ws@.subrange(1, ws.len() as int), old(self).view().init) is None
                    && e is Parse,
            },
    {
        let ghost target = init_pairs(ws@.subrange(1, ws.len() as int), self.view().init);
        let mut p: usize = 1;
        while p < ws.len()
            invariant
                1 <= p <= ws.len(),
                self.wf(),
                self.view().polys == old(self).view().polys,
                target == init_pairs(ws@.subrange(1, ws.len() as int), old(self).view().init),
                target == init_pairs(ws@.subrange(p as int, ws.len() as int), self.view().init),
            decreases ws.len() - p,
        {
            let ghost rest = ws@.subrange(p as int, ws.len() as int);
            if p + 1 >= ws.len() {
                return Err(parse_failed());
            }
            assert(rest[1] == ws@[p + 1]);
            let v = match V::parse_text(&ws[p + 1]) {
                Some(v) => v,
                None => {
                    return Err(invalid_number(&ws[p + 1]));
                },
            };
            assert(rest.subrange(2, rest.len() as int) =~= ws@.subrange(p + 2, ws.len() as int));
            assert(rest[0] == ws@[p as int]);
            bind(&mut self.init, ws[p].as_str(), v);
            p += 2;
        }
        assert(ws@.subrange(p as int, ws.len() as int) =~= Seq::<String>::empty());
        Ok(())
    }

    /// Reads a line `c@coefficient@name@order@c@coefficient...`.
    fn parse_poly(&mut self, ws: &Vec<String>) -> (r: Result<(), FFError>)
        requires
            old(self).wf(),
        ensures
            final(self).wf(),
            match r {
                Ok(()) => term_list(ws@, Seq::<TermModel<V>>::empty()) is Some && final(self).view() == (ConfigModel {
                    polys: old(self).view().polys.push(term_list(ws@, Seq::<TermModel<V>>::empty()).unwrap()),
                    init: old(self).view().init,
                }),
                Err(e) => term_list(ws@, Seq::<TermModel<V>>::empty()) is None && e is Parse,
            },
    {
        let ghost target = term_list(ws@, Seq::<TermModel<V>>::empty());
        let mut poly: Polynomial<V> = Polynomial::new();
        let mut p: usize = 0;
        assert(ws@.subrange(0, ws.len() as int) =~= ws@);
        while p < ws.len()
            invariant
                0 <= p <= ws.len(),
                target == term_list(ws@, Seq::<TermModel<V>>::empty()),
                target == term_list(ws@.subrange(p as int, ws.len() as int), poly.view()),
                self.view() == old(self).view(),
                self.wf(),
            decreases ws.len() - p,
        {
            let ghost rest = ws@.subrange(p as int, ws.len() as int);
            if p + 1 >= ws.len() {
                return Err(parse_failed());
            }
            assert(rest[1] == ws@[p + 1]);
            let c = match V::parse_text(&ws[p + 1]) {
                Some(c) => c,
                None => {
                    return Err(invalid_number(&ws[p + 1]));
                },
            };
            let mut t: Term<V> = Term::new();
            t.set_coefficient(c);
            if p + 2 == ws.len() {
                poly.add_term(t);
                p = ws.len();
                assert(ws@.subrange(p as int, ws.len() as int) =~= Seq::<String>::empty());
            } else {
                if p + 3 >= ws.len() {
                    return Err(parse_failed());
                }
                assert(rest[3] == ws@[p + 3]);
                assert(rest[2] == ws@[p + 2]);
                let order = match parse_usize(ws[p + 3].as_str()) {
                    Some(o) => o,
                    None => {
                        return Err(invalid_number(&ws[p + 3]));
                    },
                };
                t.add_variable(ws[p + 2].as_str(), order);
                assert(t.view().variables =~= seq![(ws@[p + 2]@, order)]);
                poly.add_term(t);
                assert(rest.subrange(4, rest.len() as int) =~= ws@.subrange(
                    p + 4,
                    ws.len() as int,
                ));
                p += 4;
            }
        }
        assert(ws@.subrange(p as int, ws.len() as int) =~= Seq::<String>::empty());
        self.multi_poly.push(poly);
        assert(self.view().polys =~= old(self).view().polys.push(poly.view()));
        Ok(())
    }

    /// Reads the configuration from its lines, each given as its words (the
    /// pieces of the line between `@` signs).
    pub fn parse(&mut self, lines: &Vec<Vec<String>>) -> (r: Result<(), FFError>)
        requires
            old(self).wf(),
        ensures
            final(self).wf(),
            match r {
                Ok(()) => lines_step(lines_view(lines@), old(self).view()) == Some(final(self).view()),
                Err(e) => lines_step(lines_view(lines@), old(self).view()) is None && e is Parse,
            },
    {
        let ghost lv = lines_view(lines@);
        let ghost target = lines_step(lv, self.view());
        let mut i: usize = 0;
        assert(lv.subrange(0, lv.len() as int) =~= lv);
        let i_key = String::from_str("i");
        let c_key = String::from_str("c");
        while i < lines.len()
            invariant
                0 <= i <= lines.len(),
                lv == lines_view(lines@),
                lv.len() == lines.len(),
                target == lines_step(lv, old(self).view()),
                target == lines_step(lv.subrange(i as int, lv.len() as int), self.view()),
                self.wf(),
                i_key@ == "i"@,
                c_key@ == "c"@,
            decreases lines.len() - i,
        {
            let ghost rest = lv.subrange(i as int, lv.len() as int);
            assert(rest[0] == lines@[i as int]@);
            assert(rest.drop_first() =~= lv.subrange(i + 1, lv.len() as int));
            let ws = &lines[i];
            if ws.len() == 0 {
                return Err(parse_failed());
            }
            if ws[0] == i_key {
                match self.parse_init(ws) {
                    Ok(()) => {},
                    Err(e) => return Err(e),
                }
            } else if ws[0] == c_key {
                match self.parse_poly(ws) {
                    Ok(()) => {},
                    Err(e) => return Err(e),
                }
            }
            i += 1;
        }
        assert(lv.subrange(i as int, lv.len() as int) =~= Seq::<Seq<String>>::empty());
        Ok(())
    }
}

} // verus!
