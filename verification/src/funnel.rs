//! The conversion funnel: `TryMapFrom` (fallible) and `MapFrom`
//! (infallible), their call-side twins, the built-in identity and widening
//! leaves, the `Option`/`Vec` wrappers, and the field machinery the
//! `..Default::default()` trailer expands to.
use vstd::prelude::*;
use crate::error::MappingError;

verus! {

/// Fallible field/struct/enum conversion. Implemented by `magic_map!` for
/// structs and enums, and by the leaf impls for known type pairs.
///
/// `try_maps(src, out)` says which outcomes a conversion of `src` can have.
pub trait TryMapFrom<S>: Sized {
    spec fn try_maps(src: S, out: Result<Self, MappingError>) -> bool;

    fn try_map_from(src: S) -> (r: Result<Self, MappingError>)
        ensures
            Self::try_maps(src, r),
    ;
}

/// Call-side ergonomics: `let dto: Dto = db.try_map_into()?;`
pub trait TryMapInto<D> {
    fn try_map_into(self) -> Result<D, MappingError>;
}

impl<S, D: TryMapFrom<S>> TryMapInto<D> for S {
    fn try_map_into(self) -> (r: Result<D, MappingError>)
        ensures
            D::try_maps(self, r),
    {
        D::try_map_from(self)
    }
}

/// Infallible struct/enum conversion: an identity, a lossless widening, or
/// another infallible mapping. A conversion that can fail says so in its
/// type, and one that cannot does not make every call site pretend.
///
/// `maps(src, out)` says which values a conversion of `src` can produce.
pub trait MapFrom<S>: Sized {
    spec fn maps(src: S, out: Self) -> bool;

    fn map_from(src: S) -> (r: Self)
        ensures
            Self::maps(src, r),
    ;
}

/// Call-side ergonomics: `let dto: Dto = db.map_into();`
pub trait MapInto<D> {
    fn map_into(self) -> D;
}

impl<S, D: MapFrom<S>> MapInto<D> for S {
    fn map_into(self) -> (r: D)
        ensures
            D::maps(self, r),
    {
        D::map_from(self)
    }
}

// ── identities ───────────────────────────────────────────────────────────────

impl TryMapFrom<bool> for bool {
    open spec fn try_maps(src: bool, out: Result<bool, MappingError>) -> bool {
        out == Ok::<bool, MappingError>(src)
    }

    fn try_map_from(src: bool) -> (r: Result<bool, MappingError>) {
        Ok(src)
    }
}

impl MapFrom<bool> for bool {
    open spec fn maps(src: bool, out: bool) -> bool {
        out == src
    }

    fn map_from(src: bool) -> (r: bool) {
        src
    }
}

impl TryMapFrom<char> for char {
    open spec fn try_maps(src: char, out: Result<char, MappingError>) -> bool {
        out == Ok::<char, MappingError>(src)
    }

    fn try_map_from(src: char) -> (r: Result<char, MappingError>) {
        Ok(src)
    }
}

impl MapFrom<char> for char {
    open spec fn maps(src: char, out: char) -> bool {
        out == src
    }

    fn map_from(src: char) -> (r: char) {
        src
    }
}

impl TryMapFrom<i8> for i8 {
    open spec fn try_maps(src: i8, out: Result<i8, MappingError>) -> bool {
        out == Ok::<i8, MappingError>(src)
    }

    fn try_map_from(src: i8) -> (r: Result<i8, MappingError>) {
        Ok(src)
    }
}

impl MapFrom<i8> for i8 {
    open spec fn maps(src: i8, out: i8) -> bool {
        out == src
    }

    fn map_from(src: i8) -> (r: i8) {
        src
    }
}

impl TryMapFrom<i16> for i16 {
    open spec fn try_maps(src: i16, out: Result<i16, MappingError>) -> bool {
        out == Ok::<i16, MappingError>(src)
    }

    fn try_map_from(src: i16) -> (r: Result<i16, MappingError>) {
        Ok(src)
    }
}

impl MapFrom<i16> for i16 {
    open spec fn maps(src: i16, out: i16) -> bool {
        out == src
    }

    fn map_from(src: i16) -> (r: i16) {
        src
    }
}

impl TryMapFrom<i32> for i32 {
    open spec fn try_maps(src: i32, out: Result<i32, MappingError>) -> bool {
        out == Ok::<i32, MappingError>(src)
    }

    fn try_map_from(src: i32) -> (r: Result<i32, MappingError>) {
        Ok(src)
    }
}

impl MapFrom<i32> for i32 {
    open spec fn maps(src: i32, out: i32) -> bool {
        out == src
    }

    fn map_from(src: i32) -> (r: i32) {
        src
    }
}

impl TryMapFrom<i64> for i64 {
    open spec fn try_maps(src: i64, out: Result<i64, MappingError>) -> bool {
        out == Ok::<i64, MappingError>(src)
    }

    fn try_map_from(src: i64) -> (r: Result<i64, MappingError>) {
        Ok(src)
    }
}

impl MapFrom<i64> for i64 {
    open spec fn maps(src: i64, out: i64) -> bool {
        out == src
    }

    fn map_from(src: i64) -> (r: i64) {
        src
    }
}

impl TryMapFrom<i128> for i128 {
    open spec fn try_maps(src: i128, out: Result<i128, MappingError>) -> bool {
        out == Ok::<i128, MappingError>(src)
    }

    fn try_map_from(src: i128) -> (r: Result<i128, MappingError>) {
        Ok(src)
    }
}

impl MapFrom<i128> for i128 {
    open spec fn maps(src: i128, out: i128) -> bool {
        out == src
    }

    fn map_from(src: i128) -> (r: i128) {
        src
    }
}

impl TryMapFrom<isize> for isize {
    open spec fn try_maps(src: isize, out: Result<isize, MappingError>) -> bool {
        out == Ok::<isize, MappingError>(src)
    }

    fn try_map_from(src: isize) -> (r: Result<isize, MappingError>) {
        Ok(src)
    }
}

impl MapFrom<isize> for isize {
    open spec fn maps(src: isize, out: isize) -> bool {
        out == src
    }

    fn map_from(src: isize) -> (r: isize) {
        src
    }
}

impl TryMapFrom<u8> for u8 {
    open spec fn try_maps(src: u8, out: Result<u8, MappingError>) -> bool {
        out == Ok::<u8, MappingError>(src)
    }

    fn try_map_from(src: u8) -> (r: Result<u8, MappingError>) {
        Ok(src)
    }
}

impl MapFrom<u8> for u8 {
    open spec fn maps(src: u8, out: u8) -> bool {
        out == src
    }

    fn map_from(src: u8) -> (r: u8) {
        src
    }
}

impl TryMapFrom<u16> for u16 {
    open spec fn try_maps(src: u16, out: Result<u16, MappingError>) -> bool {
        out == Ok::<u16, MappingError>(src)
    }

    fn try_map_from(src: u16) -> (r: Result<u16, MappingError>) {
        Ok(src)
    }
}

impl MapFrom<u16> for u16 {
    open spec fn maps(src: u16, out: u16) -> bool {
        out == src
    }

    fn map_from(src: u16) -> (r: u16) {
        src
    }
}

impl TryMapFrom<u32> for u32 {
    open spec fn try_maps(src: u32, out: Result<u32, MappingError>) -> bool {
        out == Ok::<u32, MappingError>(src)
    }

    fn try_map_from(src: u32) -> (r: Result<u32, MappingError>) {
        Ok(src)
    }
}

impl MapFrom<u32> for u32 {
    open spec fn maps(src: u32, out: u32) -> bool {
        out == src
    }

    fn map_from(src: u32) -> (r: u32) {
        src
    }
}

impl TryMapFrom<u64> for u64 {
    open spec fn try_maps(src: u64, out: Result<u64, MappingError>) -> bool {
        out == Ok::<u64, MappingError>(src)
    }

    fn try_map_from(src: u64) -> (r: Result<u64, MappingError>) {
        Ok(src)
    }
}

impl MapFrom<u64> for u64 {
    open spec fn maps(src: u64, out: u64) -> bool {
        out == src
    }

    fn map_from(src: u64) -> (r: u64) {
        src
    }
}

impl TryMapFrom<u128> for u128 {
    open spec fn try_maps(src: u128, out: Result<u128, MappingError>) -> bool {
        out == Ok::<u128, MappingError>(src)
    }

    fn try_map_from(src: u128) -> (r: Result<u128, MappingError>) {
        Ok(src)
    }
}

impl MapFrom<u128> for u128 {
    open spec fn maps(src: u128, out: u128) -> bool {
        out == src
    }

    fn map_from(src: u128) -> (r: u128) {
        src
    }
}

impl TryMapFrom<usize> for usize {
    open spec fn try_maps(src: usize, out: Result<usize, MappingError>) -> bool {
        out == Ok::<usize, MappingError>(src)
    }

    fn try_map_from(src: usize) -> (r: Result<usize, MappingError>) {
        Ok(src)
    }
}

impl MapFrom<usize> for usize {
    open spec fn maps(src: usize, out: usize) -> bool {
        out == src
    }

    fn map_from(src: usize) -> (r: usize) {
        src
    }
}

impl TryMapFrom<String> for String {
    open spec fn try_maps(src: String, out: Result<String, MappingError>) -> bool {
        out == Ok::<String, MappingError>(src)
    }

    fn try_map_from(src: String) -> (r: Result<String, MappingError>) {
        Ok(src)
    }
}

impl MapFrom<String> for String {
    open spec fn maps(src: String, out: String) -> bool {
        out == src
    }

    fn map_from(src: String) -> (r: String) {
        src
    }
}

// ── lossless widenings ───────────────────────────────────────────────────────
// Narrowing stays an explicit `as` in the mapper, where the lossiness is visible.

impl TryMapFrom<u8> for u16 {
    open spec fn try_maps(src: u8, out: Result<u16, MappingError>) -> bool {
        out matches Ok(v) && v == src
    }

    fn try_map_from(src: u8) -> (r: Result<u16, MappingError>) {
        Ok(src as u16)
    }
}

impl MapFrom<u8> for u16 {
    open spec fn maps(src: u8, out: u16) -> bool {
        out == src
    }

    fn map_from(src: u8) -> (r: u16) {
        src as u16
    }
}

impl TryMapFrom<u8> for u32 {
    open spec fn try_maps(src: u8, out: Result<u32, MappingError>) -> bool {
        out matches Ok(v) && v == src
    }

    fn try_map_from(src: u8) -> (r: Result<u32, MappingError>) {
        Ok(src as u32)
    }
}

impl MapFrom<u8> for u32 {
    open spec fn maps(src: u8, out: u32) -> bool {
        out == src
    }

    fn map_from(src: u8) -> (r: u32) {
        src as u32
    }
}

impl TryMapFrom<u8> for u64 {
    open spec fn try_maps(src: u8, out: Result<u64, MappingError>) -> bool {
        out matches Ok(v) && v == src
    }

    fn try_map_from(src: u8) -> (r: Result<u64, MappingError>) {
        Ok(src as u64)
    }
}

impl MapFrom<u8> for u64 {
    open spec fn maps(src: u8, out: u64) -> bool {
        out == src
    }

    fn map_from(src: u8) -> (r: u64) {
        src as u64
    }
}

impl TryMapFrom<u8> for i16 {
    open spec fn try_maps(src: u8, out: Result<i16, MappingError>) -> bool {
        out matches Ok(v) && v == src
    }

    fn try_map_from(src: u8) -> (r: Result<i16, MappingError>) {
        Ok(src as i16)
    }
}

impl MapFrom<u8> for i16 {
    open spec fn maps(src: u8, out: i16) -> bool {
        out == src
    }

    fn map_from(src: u8) -> (r: i16) {
        src as i16
    }
}

impl TryMapFrom<u8> for i32 {
    open spec fn try_maps(src: u8, out: Result<i32, MappingError>) -> bool {
        out matches Ok(v) && v == src
    }

    fn try_map_from(src: u8) -> (r: Result<i32, MappingError>) {
        Ok(src as i32)
    }
}

impl MapFrom<u8> for i32 {
    open spec fn maps(src: u8, out: i32) -> bool {
        out == src
    }

    fn map_from(src: u8) -> (r: i32) {
        src as i32
    }
}

impl TryMapFrom<u8> for i64 {
    open spec fn try_maps(src: u8, out: Result<i64, MappingError>) -> bool {
        out matches Ok(v) && v == src
    }

    fn try_map_from(src: u8) -> (r: Result<i64, MappingError>) {
        Ok(src as i64)
    }
}

impl MapFrom<u8> for i64 {
    open spec fn maps(src: u8, out: i64) -> bool {
        out == src
    }

    fn map_from(src: u8) -> (r: i64) {
        src as i64
    }
}

impl TryMapFrom<u16> for u32 {
    open spec fn try_maps(src: u16, out: Result<u32, MappingError>) -> bool {
        out matches Ok(v) && v == src
    }

    fn try_map_from(src: u16) -> (r: Result<u32, MappingError>) {
        Ok(src as u32)
    }
}

impl MapFrom<u16> for u32 {
    open spec fn maps(src: u16, out: u32) -> bool {
        out == src
    }

    fn map_from(src: u16) -> (r: u32) {
        src as u32
    }
}

impl TryMapFrom<u16> for u64 {
    open spec fn try_maps(src: u16, out: Result<u64, MappingError>) -> bool {
        out matches Ok(v) && v == src
    }

    fn try_map_from(src: u16) -> (r: Result<u64, MappingError>) {
        Ok(src as u64)
    }
}

impl MapFrom<u16> for u64 {
    open spec fn maps(src: u16, out: u64) -> bool {
        out == src
    }

    fn map_from(src: u16) -> (r: u64) {
        src as u64
    }
}

impl TryMapFrom<u16> for i32 {
    open spec fn try_maps(src: u16, out: Result<i32, MappingError>) -> bool {
        out matches Ok(v) && v == src
    }

    fn try_map_from(src: u16) -> (r: Result<i32, MappingError>) {
        Ok(src as i32)
    }
}

impl MapFrom<u16> for i32 {
    open spec fn maps(src: u16, out: i32) -> bool {
        out == src
    }

    fn map_from(src: u16) -> (r: i32) {
        src as i32
    }
}

impl TryMapFrom<u16> for i64 {
    open spec fn try_maps(src: u16, out: Result<i64, MappingError>) -> bool {
        out matches Ok(v) && v == src
    }

    fn try_map_from(src: u16) -> (r: Result<i64, MappingError>) {
        Ok(src as i64)
    }
}

impl MapFrom<u16> for i64 {
    open spec fn maps(src: u16, out: i64) -> bool {
        out == src
    }

    fn map_from(src: u16) -> (r: i64) {
        src as i64
    }
}

impl TryMapFrom<u32> for u64 {
    open spec fn try_maps(src: u32, out: Result<u64, MappingError>) -> bool {
        out matches Ok(v) && v == src
    }

    fn try_map_from(src: u32) -> (r: Result<u64, MappingError>) {
        Ok(src as u64)
    }
}

impl MapFrom<u32> for u64 {
    open spec fn maps(src: u32, out: u64) -> bool {
        out == src
    }

    fn map_from(src: u32) -> (r: u64) {
        src as u64
    }
}

impl TryMapFrom<u32> for i64 {
    open spec fn try_maps(src: u32, out: Result<i64, MappingError>) -> bool {
        out matches Ok(v) && v == src
    }

    fn try_map_from(src: u32) -> (r: Result<i64, MappingError>) {
        Ok(src as i64)
    }
}

impl MapFrom<u32> for i64 {
    open spec fn maps(src: u32, out: i64) -> bool {
        out == src
    }

    fn map_from(src: u32) -> (r: i64) {
        src as i64
    }
}

impl TryMapFrom<i8> for i16 {
    open spec fn try_maps(src: i8, out: Result<i16, MappingError>) -> bool {
        out matches Ok(v) && v == src
    }

    fn try_map_from(src: i8) -> (r: Result<i16, MappingError>) {
        Ok(src as i16)
    }
}

impl MapFrom<i8> for i16 {
    open spec fn maps(src: i8, out: i16) -> bool {
        out == src
    }

    fn map_from(src: i8) -> (r: i16) {
        src as i16
    }
}

impl TryMapFrom<i8> for i32 {
    open spec fn try_maps(src: i8, out: Result<i32, MappingError>) -> bool {
        out matches Ok(v) && v == src
    }

    fn try_map_from(src: i8) -> (r: Result<i32, MappingError>) {
        Ok(src as i32)
    }
}

impl MapFrom<i8> for i32 {
    open spec fn maps(src: i8, out: i32) -> bool {
        out == src
    }

    fn map_from(src: i8) -> (r: i32) {
        src as i32
    }
}

impl TryMapFrom<i8> for i64 {
    open spec fn try_maps(src: i8, out: Result<i64, MappingError>) -> bool {
        out matches Ok(v) && v == src
    }

    fn try_map_from(src: i8) -> (r: Result<i64, MappingError>) {
        Ok(src as i64)
    }
}

impl MapFrom<i8> for i64 {
    open spec fn maps(src: i8, out: i64) -> bool {
        out == src
    }

    fn map_from(src: i8) -> (r: i64) {
        src as i64
    }
}

impl TryMapFrom<i16> for i32 {
    open spec fn try_maps(src: i16, out: Result<i32, MappingError>) -> bool {
        out matches Ok(v) && v == src
    }

    fn try_map_from(src: i16) -> (r: Result<i32, MappingError>) {
        Ok(src as i32)
    }
}

impl MapFrom<i16> for i32 {
    open spec fn maps(src: i16, out: i32) -> bool {
        out == src
    }

    fn map_from(src: i16) -> (r: i32) {
        src as i32
    }
}

impl TryMapFrom<i16> for i64 {
    open spec fn try_maps(src: i16, out: Result<i64, MappingError>) -> bool {
        out matches Ok(v) && v == src
    }

    fn try_map_from(src: i16) -> (r: Result<i64, MappingError>) {
        Ok(src as i64)
    }
}

impl MapFrom<i16> for i64 {
    open spec fn maps(src: i16, out: i64) -> bool {
        out == src
    }

    fn map_from(src: i16) -> (r: i64) {
        src as i64
    }
}

impl TryMapFrom<i32> for i64 {
    open spec fn try_maps(src: i32, out: Result<i64, MappingError>) -> bool {
        out matches Ok(v) && v == src
    }

    fn try_map_from(src: i32) -> (r: Result<i64, MappingError>) {
        Ok(src as i64)
    }
}

impl MapFrom<i32> for i64 {
    open spec fn maps(src: i32, out: i64) -> bool {
        out == src
    }

    fn map_from(src: i32) -> (r: i64) {
        src as i64
    }
}

// ── Option / Vec wrappers ────────────────────────────────────────────────────

impl<S, D: TryMapFrom<S>> TryMapFrom<Option<S>> for Option<D> {
    /// `None` stays `None`; `Some` is funnelled through the inner conversion,
    /// whose error surfaces unchanged.
    open spec fn try_maps(src: Option<S>, out: Result<Option<D>, MappingError>) -> bool {
        match src {
            None => out == Ok::<Option<D>, MappingError>(None),
            Some(s) => match out {
                Ok(Some(d)) => D::try_maps(s, Ok(d)),
                Ok(None) => false,
                Err(e) => D::try_maps(s, Err(e)),
            },
        }
    }

    fn try_map_from(src: Option<S>) -> (r: Result<Option<D>, MappingError>) {
        match src {
            Some(s) => match D::try_map_from(s) {
                Ok(d) => Ok(Some(d)),
                Err(e) => Err(e),
            },
            None => Ok(None),
        }
    }
}

impl<S, D: MapFrom<S>> MapFrom<Option<S>> for Option<D> {
    open spec fn maps(src: Option<S>, out: Option<D>) -> bool {
        match src {
            None => out is None,
            Some(s) => out matches Some(d) && D::maps(s, d),
        }
    }

    fn map_from(src: Option<S>) -> (r: Option<D>) {
        match src {
            Some(s) => Some(D::map_from(s)),
            None => None,
        }
    }
}

/// Every element of `src` converts, in order, to the element of `out` at the
/// same position.
pub open spec fn all_try_mapped<S, D: TryMapFrom<S>>(src: Seq<S>, out: Seq<D>) -> bool {
    &&& out.len() == src.len()
    &&& forall|i: int| 0 <= i < src.len() ==> D::try_maps(#[trigger] src[i], Ok(out[i]))
}

/// Element `k` is the first to fail, with `e`: everything before it converts.
pub open spec fn first_failure<S, D: TryMapFrom<S>>(src: Seq<S>, k: int, e: MappingError) -> bool {
    &&& 0 <= k < src.len()
    &&& D::try_maps(src[k], Err(e))
    &&& exists|done: Seq<D>| #[trigger] all_try_mapped::<S, D>(src.take(k), done)
}

impl<S, D: TryMapFrom<S>> TryMapFrom<Vec<S>> for Vec<D> {
    /// All elements convert in order, or the error is that of the first
    /// element that fails.
    open spec fn try_maps(src: Vec<S>, out: Result<Vec<D>, MappingError>) -> bool {
        match out {
            Ok(v) => all_try_mapped::<S, D>(src@, v@),
            Err(e) => exists|k: int| #[trigger] first_failure::<S, D>(src@, k, e),
        }
    }

    #[verifier::loop_isolation(false)]
    fn try_map_from(src: Vec<S>) -> (r: Result<Vec<D>, MappingError>) {
        let ghost s = src@;
        let mut rest = src;
        let mut rev: Vec<S> = Vec::new();
        while rest.len() > 0
            invariant
                rest@ == s.take(rest.len() as int),
                rev.len() + rest.len() == s.len(),
                forall|i: int| 0 <= i < rev.len() ==> rev@[i] == s[s.len() - 1 - i],
            decreases rest.len(),
        {
            let x = rest.pop().unwrap();
            rev.push(x);
        }
        let mut out: Vec<D> = Vec::new();
        while rev.len() > 0
            invariant
                out.len() + rev.len() == s.len(),
                forall|i: int| 0 <= i < rev.len() ==> rev@[i] == s[s.len() - 1 - i],
                all_try_mapped::<S, D>(s.take(out.len() as int), out@),
            decreases rev.len(),
        {
            let ghost k = out.len() as int;
            let x = rev.pop().unwrap();
            assert(x == s[k]);
            match D::try_map_from(x) {
                Ok(d) => {
                    out.push(d);
                    assert forall|i: int| 0 <= i < k + 1 implies D::try_maps(
                        #[trigger] s.take(k + 1)[i],
                        Ok(out@[i]),
                    ) by {
                        if i < k {
                            assert(s.take(k + 1)[i] == s.take(k)[i]);
                        }
                    }
                },
                Err(e) => {
                    assert(first_failure::<S, D>(s, k, e));
                    return Err(e);
                },
            }
        }
        assert(s.take(s.len() as int) == s);
        Ok(out)
    }
}

impl<S, D: MapFrom<S>> MapFrom<Vec<S>> for Vec<D> {
    /// Every element converts, in order.
    open spec fn maps(src: Vec<S>, out: Vec<D>) -> bool {
        &&& out.len() == src.len()
        &&& forall|i: int| 0 <= i < src.len() ==> D::maps(#[trigger] src@[i], out@[i])
    }

    fn map_from(src: Vec<S>) -> (r: Vec<D>) {
        let ghost s = src@;
        let mut rest = src;
        let mut rev: Vec<S> = Vec::new();
        while rest.len() > 0
            invariant
                rest@ == s.take(rest.len() as int),
                rev.len() + rest.len() == s.len(),
                forall|i: int| 0 <= i < rev.len() ==> rev@[i] == s[s.len() - 1 - i],
            decreases rest.len(),
        {
            let x = rest.pop().unwrap();
            rev.push(x);
        }
        let mut out: Vec<D> = Vec::new();
        while rev.len() > 0
            invariant
                out.len() + rev.len() == s.len(),
                forall|i: int| 0 <= i < rev.len() ==> rev@[i] == s[s.len() - 1 - i],
                forall|i: int| 0 <= i < out.len() ==> D::maps(#[trigger] s[i], out@[i]),
            decreases rev.len(),
        {
            let x = rev.pop().unwrap();
            out.push(D::map_from(x));
        }
        out
    }
}

// ── `..Default::default()` field machinery ───────────────────────────────────

/// One field of a defaults-trailer mapping: the source value and the default
/// instance's value for the same field, each taken at most once.
pub struct MapPair<S, D>(pub Option<S>, pub Option<D>);

/// Tier 1: an `Option` source into a required destination; `None` falls back
/// to the default instance's field.
pub trait MapFieldOpt<D>: Sized {
    /// The pair still holds what this tier consumes.
    spec fn field_ready(&self) -> bool;

    /// What resolving the field may produce.
    spec fn field_result(&self, r: Result<D, MappingError>) -> bool;

    fn map_field_or(self) -> (r: Result<D, MappingError>)
        requires
            self.field_ready(),
        ensures
            self.field_result(r),
    ;
}

impl<'a, 'b, 'c, S, D: TryMapFrom<S>> MapFieldOpt<D> for &'a mut &'b mut &'c mut MapPair<Option<S>, D> {
    open spec fn field_ready(&self) -> bool {
        &&& (***self).0 is Some
        &&& ((***self).0->0 is None ==> (***self).1 is Some)
    }

    open spec fn field_result(&self, r: Result<D, MappingError>) -> bool {
        match (***self).0 {
            Some(Some(s)) => D::try_maps(s, r),
            _ => r == Ok::<D, MappingError>((***self).1->0),
        }
    }

    /// The source is taken; the fallback is taken only when it was used.
    fn map_field_or(self) -> (r: Result<D, MappingError>)
        ensures
            (***final(self)).0 is None,
            match (***old(self)).0 {
                Some(Some(_)) => (***final(self)).1 == (***old(self)).1,
                _ => (***final(self)).1 is None,
            },
    {
        match self.0.take().unwrap() {
            Some(s) => D::try_map_from(s),
            None => Ok(self.1.take().unwrap()),
        }
    }
}

/// Tier 2: the plain funnel, `Option` into `Option` included, so an optional
/// destination never gets a value invented.
pub trait MapFieldVal<D>: Sized {
    /// The pair still holds what this tier consumes.
    spec fn field_ready(&self) -> bool;

    /// What resolving the field may produce.
    spec fn field_result(&self, r: Result<D, MappingError>) -> bool;

    fn map_field_or(self) -> (r: Result<D, MappingError>)
        requires
            self.field_ready(),
        ensures
            self.field_result(r),
    ;
}

impl<'a, 'b, S, D: TryMapFrom<S>> MapFieldVal<D> for &'a mut &'b mut MapPair<S, D> {
    open spec fn field_ready(&self) -> bool {
        (**self).0 is Some
    }

    open spec fn field_result(&self, r: Result<D, MappingError>) -> bool {
        D::try_maps((**self).0->0, r)
    }

    /// The source is taken; the fallback is left in place.
    fn map_field_or(self) -> (r: Result<D, MappingError>)
        ensures
            (**final(self)).0 is None,
            (**final(self)).1 == (**old(self)).1,
    {
        D::try_map_from(self.0.take().unwrap())
    }
}

/// Tier 3: a plain source into an `Option` destination: funnel it and wrap
/// the result in `Some`.
pub trait MapFieldWrap<D>: Sized {
    /// The pair still holds what this tier consumes.
    spec fn field_ready(&self) -> bool;

    /// What resolving the field may produce.
    spec fn field_result(&self, r: Result<D, MappingError>) -> bool;

    fn map_field_or(self) -> (r: Result<D, MappingError>)
        requires
            self.field_ready(),
        ensures
            self.field_result(r),
    ;
}

impl<'a, S, U: TryMapFrom<S>> MapFieldWrap<Option<U>> for &'a mut MapPair<S, Option<U>> {
    open spec fn field_ready(&self) -> bool {
        (**self).0 is Some
    }

    open spec fn field_result(&self, r: Result<Option<U>, MappingError>) -> bool {
        match r {
            Ok(Some(u)) => U::try_maps((**self).0->0, Ok(u)),
            Ok(None) => false,
            Err(e) => U::try_maps((**self).0->0, Err(e)),
        }
    }

    /// The source is taken; the fallback is left in place.
    fn map_field_or(self) -> (r: Result<Option<U>, MappingError>)
        ensures
            (*final(self)).0 is None,
            (*final(self)).1 == (*old(self)).1,
    {
        let src = self.0.take().unwrap();
        match U::try_map_from(src) {
            Ok(u) => Ok(Some(u)),
            Err(e) => Err(e),
        }
    }
}


// ── laws ─────────────────────────────────────────────────────────────────────

/// Every widening leaf is lossless and cannot fail: whatever value of the
/// narrower type goes in, the same number comes out, through `TryMapFrom`
/// (always `Ok`) and through `MapFrom` alike.
pub proof fn law_widenings_are_lossless()
    ensures
        forall|src: u8, out: Result<u16, MappingError>| #[trigger] <u16 as TryMapFrom<u8>>::try_maps(src, out) ==> (out matches Ok(d) && d as int == src as int),
        forall|src: u8, out: u16| #[trigger] <u16 as MapFrom<u8>>::maps(src, out) ==> out as int == src as int,
        forall|src: u8, out: Result<u32, MappingError>| #[trigger] <u32 as TryMapFrom<u8>>::try_maps(src, out) ==> (out matches Ok(d) && d as int == src as int),
        forall|src: u8, out: u32| #[trigger] <u32 as MapFrom<u8>>::maps(src, out) ==> out as int == src as int,
        forall|src: u8, out: Result<u64, MappingError>| #[trigger] <u64 as TryMapFrom<u8>>::try_maps(src, out) ==> (out matches Ok(d) && d as int == src as int),
        forall|src: u8, out: u64| #[trigger] <u64 as MapFrom<u8>>::maps(src, out) ==> out as int == src as int,
        forall|src: u8, out: Result<i16, MappingError>| #[trigger] <i16 as TryMapFrom<u8>>::try_maps(src, out) ==> (out matches Ok(d) && d as int == src as int),
        forall|src: u8, out: i16| #[trigger] <i16 as MapFrom<u8>>::maps(src, out) ==> out as int == src as int,
        forall|src: u8, out: Result<i32, MappingError>| #[trigger] <i32 as TryMapFrom<u8>>::try_maps(src, out) ==> (out matches Ok(d) && d as int == src as int),
        forall|src: u8, out: i32| #[trigger] <i32 as MapFrom<u8>>::maps(src, out) ==> out as int == src as int,
        forall|src: u8, out: Result<i64, MappingError>| #[trigger] <i64 as TryMapFrom<u8>>::try_maps(src, out) ==> (out matches Ok(d) && d as int == src as int),
        forall|src: u8, out: i64| #[trigger] <i64 as MapFrom<u8>>::maps(src, out) ==> out as int == src as int,
        forall|src: u16, out: Result<u32, MappingError>| #[trigger] <u32 as TryMapFrom<u16>>::try_maps(src, out) ==> (out matches Ok(d) && d as int == src as int),
        forall|src: u16, out: u32| #[trigger] <u32 as MapFrom<u16>>::maps(src, out) ==> out as int == src as int,
        forall|src: u16, out: Result<u64, MappingError>| #[trigger] <u64 as TryMapFrom<u16>>::try_maps(src, out) ==> (out matches Ok(d) && d as int == src as int),
        forall|src: u16, out: u64| #[trigger] <u64 as MapFrom<u16>>::maps(src, out) ==> out as int == src as int,
        forall|src: u16, out: Result<i32, MappingError>| #[trigger] <i32 as TryMapFrom<u16>>::try_maps(src, out) ==> (out matches Ok(d) && d as int == src as int),
        forall|src: u16, out: i32| #[trigger] <i32 as MapFrom<u16>>::maps(src, out) ==> out as int == src as int,
        forall|src: u16, out: Result<i64, MappingError>| #[trigger] <i64 as TryMapFrom<u16>>::try_maps(src, out) ==> (out matches Ok(d) && d as int == src as int),
        forall|src: u16, out: i64| #[trigger] <i64 as MapFrom<u16>>::maps(src, out) ==> out as int == src as int,
        forall|src: u32, out: Result<u64, MappingError>| #[trigger] <u64 as TryMapFrom<u32>>::try_maps(src, out) ==> (out matches Ok(d) && d as int == src as int),
        forall|src: u32, out: u64| #[trigger] <u64 as MapFrom<u32>>::maps(src, out) ==> out as int == src as int,
        forall|src: u32, out: Result<i64, MappingError>| #[trigger] <i64 as TryMapFrom<u32>>::try_maps(src, out) ==> (out matches Ok(d) && d as int == src as int),
        forall|src: u32, out: i64| #[trigger] <i64 as MapFrom<u32>>::maps(src, out) ==> out as int == src as int,
        forall|src: i8, out: Result<i16, MappingError>| #[trigger] <i16 as TryMapFrom<i8>>::try_maps(src, out) ==> (out matches Ok(d) && d as int == src as int),
        forall|src: i8, out: i16| #[trigger] <i16 as MapFrom<i8>>::maps(src, out) ==> out as int == src as int,
        forall|src: i8, out: Result<i32, MappingError>| #[trigger] <i32 as TryMapFrom<i8>>::try_maps(src, out) ==> (out matches Ok(d) && d as int == src as int),
        forall|src: i8, out: i32| #[trigger] <i32 as MapFrom<i8>>::maps(src, out) ==> out as int == src as int,
        forall|src: i8, out: Result<i64, MappingError>| #[trigger] <i64 as TryMapFrom<i8>>::try_maps(src, out) ==> (out matches Ok(d) && d as int == src as int),
        forall|src: i8, out: i64| #[trigger] <i64 as MapFrom<i8>>::maps(src, out) ==> out as int == src as int,
        forall|src: i16, out: Result<i32, MappingError>| #[trigger] <i32 as TryMapFrom<i16>>::try_maps(src, out) ==> (out matches Ok(d) && d as int == src as int),
        forall|src: i16, out: i32| #[trigger] <i32 as MapFrom<i16>>::maps(src, out) ==> out as int == src as int,
        forall|src: i16, out: Result<i64, MappingError>| #[trigger] <i64 as TryMapFrom<i16>>::try_maps(src, out) ==> (out matches Ok(d) && d as int == src as int),
        forall|src: i16, out: i64| #[trigger] <i64 as MapFrom<i16>>::maps(src, out) ==> out as int == src as int,
        forall|src: i32, out: Result<i64, MappingError>| #[trigger] <i64 as TryMapFrom<i32>>::try_maps(src, out) ==> (out matches Ok(d) && d as int == src as int),
        forall|src: i32, out: i64| #[trigger] <i64 as MapFrom<i32>>::maps(src, out) ==> out as int == src as int,
{
}

/// Every identity leaf hands its value back unchanged, and cannot fail.
pub proof fn law_identities_keep_the_value()
    ensures
        forall|src: bool, out: Result<bool, MappingError>| #[trigger] <bool as TryMapFrom<bool>>::try_maps(src, out) ==> out == Ok::<bool, MappingError>(src),
        forall|src: bool, out: bool| #[trigger] <bool as MapFrom<bool>>::maps(src, out) ==> out == src,
        forall|src: char, out: Result<char, MappingError>| #[trigger] <char as TryMapFrom<char>>::try_maps(src, out) ==> out == Ok::<char, MappingError>(src),
        forall|src: char, out: char| #[trigger] <char as MapFrom<char>>::maps(src, out) ==> out == src,
        forall|src: i8, out: Result<i8, MappingError>| #[trigger] <i8 as TryMapFrom<i8>>::try_maps(src, out) ==> (out matches Ok(d) && d as int == src as int),
        forall|src: i8, out: i8| #[trigger] <i8 as MapFrom<i8>>::maps(src, out) ==> out as int == src as int,
        forall|src: i16, out: Result<i16, MappingError>| #[trigger] <i16 as TryMapFrom<i16>>::try_maps(src, out) ==> (out matches Ok(d) && d as int == src as int),
        forall|src: i16, out: i16| #[trigger] <i16 as MapFrom<i16>>::maps(src, out) ==> out as int == src as int,
        forall|src: i32, out: Result<i32, MappingError>| #[trigger] <i32 as TryMapFrom<i32>>::try_maps(src, out) ==> (out matches Ok(d) && d as int == src as int),
        forall|src: i32, out: i32| #[trigger] <i32 as MapFrom<i32>>::maps(src, out) ==> out as int == src as int,
        forall|src: i64, out: Result<i64, MappingError>| #[trigger] <i64 as TryMapFrom<i64>>::try_maps(src, out) ==> (out matches Ok(d) && d as int == src as int),
        forall|src: i64, out: i64| #[trigger] <i64 as MapFrom<i64>>::maps(src, out) ==> out as int == src as int,
        forall|src: i128, out: Result<i128, MappingError>| #[trigger] <i128 as TryMapFrom<i128>>::try_maps(src, out) ==> (out matches Ok(d) && d as int == src as int),
        forall|src: i128, out: i128| #[trigger] <i128 as MapFrom<i128>>::maps(src, out) ==> out as int == src as int,
        forall|src: isize, out: Result<isize, MappingError>| #[trigger] <isize as TryMapFrom<isize>>::try_maps(src, out) ==> (out matches Ok(d) && d as int == src as int),
        forall|src: isize, out: isize| #[trigger] <isize as MapFrom<isize>>::maps(src, out) ==> out as int == src as int,
        forall|src: u8, out: Result<u8, MappingError>| #[trigger] <u8 as TryMapFrom<u8>>::try_maps(src, out) ==> (out matches Ok(d) && d as int == src as int),
        forall|src: u8, out: u8| #[trigger] <u8 as MapFrom<u8>>::maps(src, out) ==> out as int == src as int,
        forall|src: u16, out: Result<u16, MappingError>| #[trigger] <u16 as TryMapFrom<u16>>::try_maps(src, out) ==> (out matches Ok(d) && d as int == src as int),
        forall|src: u16, out: u16| #[trigger] <u16 as MapFrom<u16>>::maps(src, out) ==> out as int == src as int,
        forall|src: u32, out: Result<u32, MappingError>| #[trigger] <u32 as TryMapFrom<u32>>::try_maps(src, out) ==> (out matches Ok(d) && d as int == src as int),
        forall|src: u32, out: u32| #[trigger] <u32 as MapFrom<u32>>::maps(src, out) ==> out as int == src as int,
        forall|src: u64, out: Result<u64, MappingError>| #[trigger] <u64 as TryMapFrom<u64>>::try_maps(src, out) ==> (out matches Ok(d) && d as int == src as int),
        forall|src: u64, out: u64| #[trigger] <u64 as MapFrom<u64>>::maps(src, out) ==> out as int == src as int,
        forall|src: u128, out: Result<u128, MappingError>| #[trigger] <u128 as TryMapFrom<u128>>::try_maps(src, out) ==> (out matches Ok(d) && d as int == src as int),
        forall|src: u128, out: u128| #[trigger] <u128 as MapFrom<u128>>::maps(src, out) ==> out as int == src as int,
        forall|src: usize, out: Result<usize, MappingError>| #[trigger] <usize as TryMapFrom<usize>>::try_maps(src, out) ==> (out matches Ok(d) && d as int == src as int),
        forall|src: usize, out: usize| #[trigger] <usize as MapFrom<usize>>::maps(src, out) ==> out as int == src as int,
        forall|src: String, out: Result<String, MappingError>| #[trigger] <String as TryMapFrom<String>>::try_maps(src, out) ==> out == Ok::<String, MappingError>(src),
        forall|src: String, out: String| #[trigger] <String as MapFrom<String>>::maps(src, out) ==> out == src,
{
}

} // verus!
