use halo2_frontend::ir::lift::inner::LiftInner;
use halo2_frontend::ir::lift::unwrapped::Unwrapped;
use halo2_frontend::ir::lift::{
    concretized, lower, simplified, simplify, Lift, LiftField, LiftLike, LiftLowering, NamedConstant,
};

/// Integers modulo 13.
#[derive(Clone, Copy, Debug, PartialEq)]
struct M13(u64);

impl LiftField for M13 {
    fn field_add(self, rhs: Self) -> Self {
        self.add(&rhs)
    }
    fn field_sub(self, rhs: Self) -> Self {
        self.sub(&rhs)
    }
    fn field_mul(self, rhs: Self) -> Self {
        self.mul(&rhs)
    }
    fn field_neg(self) -> Self {
        self.neg()
    }
    fn field_square(self) -> Self {
        self.square()
    }
    fn field_double(self) -> Self {
        self.double()
    }
    fn field_invert(self) -> Self {
        self.invert_or_zero()
    }
    fn field_sqrt_ratio(num: Self, div: Self) -> Self {
        Self::sqrt_ratio(&num, &div)
    }
    fn field_named(which: NamedConstant) -> Self {
        Self::named(which)
    }
    fn add(&self, rhs: &Self) -> Self {
        M13((self.0 + rhs.0) % 13)
    }
    fn sub(&self, rhs: &Self) -> Self {
        M13((self.0 + 13 - rhs.0) % 13)
    }
    fn mul(&self, rhs: &Self) -> Self {
        M13((self.0 * rhs.0) % 13)
    }
    fn neg(&self) -> Self {
        M13((13 - self.0) % 13)
    }
    fn square(&self) -> Self {
        self.mul(self)
    }
    fn double(&self) -> Self {
        self.add(self)
    }
    fn invert_or_zero(&self) -> Self {
        (0..13).map(M13).find(|x| x.mul(self).0 == 1).unwrap_or(M13(0))
    }
    fn sqrt_ratio(num: &Self, div: &Self) -> Self {
        let r = num.mul(&div.invert_or_zero());
        (0..13).map(M13).find(|x| x.square() == r).unwrap_or(M13(0))
    }
    fn named(which: NamedConstant) -> Self {
        match which {
            NamedConstant::Zero => M13(0),
            NamedConstant::One => M13(1),
            NamedConstant::TwoInv => M13(7),
            NamedConstant::MultiplicativeGenerator => M13(2),
            NamedConstant::RootOfUnity => M13(8),
            NamedConstant::RootOfUnityInv => M13(5),
            NamedConstant::Delta => M13(3),
        }
    }
}

type L = LiftInner<M13>;

fn c(n: u64) -> Box<L> {
    Box::new(LiftInner::Const(M13(n)))
}

#[test]
fn constants_fold() {
    let e = L::Add(c(5), Box::new(L::Mul(c(3), c(4))));
    assert_eq!(concretized(&e), Some(M13(4)));
    let inv = L::Invert(c(0));
    assert_eq!(concretized(&inv), Some(M13(0)));
    let inv = L::Invert(c(2));
    assert_eq!(concretized(&inv), Some(M13(7)));
}

#[test]
fn known_lifted_values_fold_unless_kept() {
    let e = L::Add(Box::new(L::Lift(1, Some(M13(2)))), c(3));
    assert_eq!(concretized(&e), Some(M13(5)));
    match simplify(&e, true) {
        Err(L::Add(l, r)) => {
            assert!(matches!(*l, L::Lift(1, Some(M13(2)))));
            assert!(matches!(*r, L::Const(M13(3))));
        }
        _ => panic!("the lifted value is kept"),
    }
    let unknown = L::Mul(Box::new(L::Lift(2, None)), Box::new(L::Add(c(1), c(1))));
    assert_eq!(concretized(&unknown), None);
    match simplified(&unknown) {
        L::Mul(l, r) => {
            assert!(matches!(*l, L::Lift(2, None)));
            assert!(matches!(*r, L::Const(M13(2))));
        }
        _ => panic!("the product stays"),
    }
}

#[test]
fn conditional_selection_takes_its_side() {
    let e = L::CondSelect(false, Box::new(L::Lift(0, None)), c(6));
    assert_eq!(concretized(&e), Some(M13(6)));
    assert!(e.is_symbolic());
    assert!(!L::Add(c(1), c(2)).is_symbolic());
}

#[test]
fn structural_equality_of_views() {
    let a = L::Add(c(1), Box::new(L::Lift(3, Some(M13(4)))));
    let b = L::Add(c(1), Box::new(L::Lift(3, Some(M13(4)))));
    assert!(Unwrapped::new(&a) == Unwrapped::new(&b));
    let unknown = L::Lift(3, None);
    assert!(Unwrapped::new(&unknown) != Unwrapped::new(&unknown));
    let sel = L::CondSelect(true, c(1), c(1));
    assert!(Unwrapped::new(&sel) != Unwrapped::new(&sel));
    let s = L::add(Unwrapped::new(&a), Unwrapped::new(&b));
    assert!(Unwrapped::new(&s) == Unwrapped::new(&L::Add(Box::new(a.duplicate()), Box::new(b.duplicate()))));
}

struct Printer;

impl LiftLowering for Printer {
    type F = M13;
    type Output = String;
    type Error = String;

    fn lower_constant(&self, f: &M13) -> Result<String, String> {
        Ok(f.0.to_string())
    }
    fn lower_lifted(&self, id: usize, f: Option<&M13>) -> Result<String, String> {
        match f {
            Some(_) => Ok(format!("x{id}")),
            None => Err(format!("unknown x{id}")),
        }
    }
    fn lower_add(&self, l: &String, r: &String) -> Result<String, String> {
        Ok(format!("({l} + {r})"))
    }
    fn lower_sub(&self, l: &String, r: &String) -> Result<String, String> {
        Ok(format!("({l} - {r})"))
    }
    fn lower_mul(&self, l: &String, r: &String) -> Result<String, String> {
        Ok(format!("({l} * {r})"))
    }
    fn lower_neg(&self, e: &String) -> Result<String, String> {
        Ok(format!("-{e}"))
    }
    fn lower_double(&self, e: &String) -> Result<String, String> {
        Ok(format!("2{e}"))
    }
    fn lower_square(&self, e: &String) -> Result<String, String> {
        Ok(format!("{e}^2"))
    }
    fn lower_invert(&self, e: &String) -> Result<String, String> {
        Ok(format!("1/{e}"))
    }
    fn lower_sqrt_ratio(&self, l: &String, r: &String) -> Result<String, String> {
        Ok(format!("sqrt({l}/{r})"))
    }
    fn lower_cond_select(&self, c: bool, t: &String, e: &String) -> Result<String, String> {
        Ok(format!("({c} ? {t} : {e})"))
    }
}

#[test]
fn lowering_visits_every_operation() {
    let e = L::Add(Box::new(L::Lift(1, Some(M13(2)))), Box::new(L::Mul(c(2), c(3))));
    assert_eq!(lower(&Printer, &e, false), Ok("(x1 + (2 * 3))".to_string()));
    assert_eq!(lower(&Printer, &e, true), Ok("(x1 + 6)".to_string()));
    let bad = L::Sub(Box::new(L::Lift(7, None)), Box::new(L::Lift(8, None)));
    assert_eq!(lower(&Printer, &bad, false), Err("unknown x7".to_string()));
}

#[test]
fn lifted_values_build_expressions() {
    let two_inv: Lift<M13> = Lift::TwoInv;
    let x = Lift::<M13>::lift(4);
    let e = x.mul(&two_inv).add(&Lift::from_const(M13(1)));
    assert!(e.is_symbolic());
    assert_eq!(e.concretized(), None);
    match e.canonicalized() {
        Lift::Assigned(t) => assert!(matches!(*t, LiftInner::Add(_, _))),
        _ => panic!("expected an expression"),
    }
    // Named constants become their values.
    let k = two_inv.add(&Lift::One);
    assert!(!k.is_symbolic());
    assert_eq!(k.concretized(), Some(M13(8)));
    match k.simplified() {
        Lift::Assigned(t) => assert!(matches!(*t, LiftInner::Const(M13(8)))),
        _ => panic!("expected an expression"),
    }
    // A lifted value with a known value is concrete.
    let v = Lift::<M13>::lift_value(9, M13(3)).neg().sub(&Lift::Delta);
    assert_eq!(v.concretized(), Some(M13(7)));
}

#[test]
fn differences_of_constants_concretize() {
    let x = Lift::<M13>::from_const(M13(5)).sub(&Lift::from_const(M13(3)));
    assert_eq!(x.concretized(), Some(M13(2)));
    let y = Lift::<M13>::from_const(M13(3)).sub(&Lift::from_const(M13(5)));
    assert_eq!(y.concretized(), Some(M13(11)));
}

#[test]
fn known_lifted_values_concretize_and_stay_lifted_when_simplified() {
    let v = Lift::<M13>::lift_value(0, M13(7));
    let s = Lift::<M13>::lift(1);
    assert_eq!(v.concretized(), Some(M13(7)));
    assert_eq!(s.concretized(), None);
    assert!(v.simplified().is_symbolic());
}

#[test]
fn structural_equality_needs_known_values() {
    let unknown = L::Lift(3, None);
    assert!(Unwrapped::new(&unknown) != Unwrapped::new(&unknown));
    assert!(Unwrapped::new(&unknown) != Unwrapped::new(&L::Lift(4, None)));
    assert!(Unwrapped::new(&unknown) != Unwrapped::new(&L::Lift(3, Some(M13(1)))));
    let sel = L::CondSelect(true, c(1), Box::new(L::Lift(2, None)));
    let same = L::CondSelect(true, c(1), Box::new(L::Lift(2, None)));
    let other = L::CondSelect(false, c(1), Box::new(L::Lift(2, None)));
    assert!(Unwrapped::new(&sel) != Unwrapped::new(&same));
    assert!(Unwrapped::new(&sel) != Unwrapped::new(&other));
    let known = L::Neg(Box::new(L::Lift(2, Some(M13(5)))));
    assert!(Unwrapped::new(&known) == Unwrapped::new(&L::Neg(Box::new(L::Lift(2, Some(M13(5)))))));
}

#[test]
fn evaluation_combines_the_parts() {
    let e = L::Add(
        c(2),
        Box::new(L::Mul(Box::new(L::Lift(1, Some(M13(3)))), Box::new(L::Neg(c(4))))),
    );
    let v: i64 = e.evaluate(
        &|f: &M13| f.0 as i64,
        &|_, f: Option<&M13>| f.map(|x| x.0 as i64).unwrap_or(100),
        &|a, b| a + b,
        &|a, b| a - b,
        &|a, b| a * b,
        &|a| -a,
        &|a| a * a,
        &|a| 2 * a,
        &|a| a,
        &|a, b| a + b,
        &|c, a, b| if c { a } else { b },
    );
    assert_eq!(v, 2 + 3 * -4);
    let sel = L::CondSelect(false, Box::new(L::Lift(5, None)), c(9));
    let w: i64 = sel.evaluate(
        &|f: &M13| f.0 as i64,
        &|_, f: Option<&M13>| f.map(|x| x.0 as i64).unwrap_or(100),
        &|a, b| a + b,
        &|a, b| a - b,
        &|a, b| a * b,
        &|a| -a,
        &|a| a * a,
        &|a| 2 * a,
        &|a| a,
        &|a, b| a + b,
        &|c, a, b| if c { a } else { b },
    );
    assert_eq!(w, 9);
}

#[test]
fn values_compare_by_what_they_simplify_to() {
    let x = Lift::<M13>::lift_value(3, M13(2));
    assert!(x == Lift::<M13>::lift_value(3, M13(2)));
    assert!(x != Lift::<M13>::lift_value(4, M13(2)));
    assert!(Lift::<M13>::lift(3) != Lift::<M13>::lift(3));
    let d = Lift::<M13>::from_const(M13(5)).sub(&Lift::from_const(M13(3)));
    assert!(d == Lift::from_const(M13(2)));
    assert!(d != Lift::from_const(M13(3)));
    assert!(Lift::<M13>::One == Lift::from_const(M13(1)));
    let e = x.add(&Lift::from_const(M13(1)));
    assert!(e == Lift::<M13>::lift_value(3, M13(2)).add(&Lift::One));
}

#[test]
fn simplifying_twice_changes_nothing() {
    let e = L::Add(
        Box::new(L::Mul(c(2), c(3))),
        Box::new(L::CondSelect(true, Box::new(L::Lift(1, None)), c(4))),
    );
    let once = simplified(&e);
    let twice = simplified(&once);
    assert_eq!(format!("{once:?}"), format!("{twice:?}"));
    assert!(matches!(once, L::Add(ref l, ref r) if matches!(**l, L::Const(M13(6))) && matches!(**r, L::Lift(1, None))));
}

#[test]
fn products_multiply_in_order() {
    let items = vec![Lift::<M13>::lift_value(3, M13(2)), Lift::from_const(M13(5)), Lift::from_const(M13(3))];
    let p = Lift::product(&items);
    // 2 * 5 * 3 = 30 = 4 (mod 13).
    assert_eq!(p.concretized(), Some(M13(4)));
    assert!(p == items[0].mul(&items[1]).mul(&items[2]));
    assert!(p != items[0].mul(&items[2]).mul(&items[1]));
    assert!(matches!(Lift::<M13>::product(&vec![]), Lift::Zero));
    let single = Lift::<M13>::product(&vec![Lift::from_const(M13(7))]);
    assert!(matches!(single, Lift::Const(M13(7))));
}
