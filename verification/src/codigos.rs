//! The codes under which each supplier knows a product: a map from supplier
//! name to an optional numeric code, and the reading of that map from the
//! two parallel lists of the product form.
use vstd::prelude::*;
use crate::texto::{caracteres, entero_escrito, leer_u128, lectura_u128};

verus! {

/// The map that a list of (name, code) entries stands for, later entries
/// overriding earlier ones under the same name.
pub open spec fn mapa_de(s: Seq<(String, Option<u128>)>) -> Map<Seq<char>, Option<u128>>
    decreases s.len(),
{
    if s.len() == 0 {
        Map::empty()
    } else {
        mapa_de(s.drop_last()).insert(s.last().0@, s.last().1)
    }
}

/// No two entries share a name.
pub open spec fn nombres_distintos(s: Seq<(String, Option<u128>)>) -> bool {
    forall|i: int, j: int| 0 <= i < j < s.len() ==> #[trigger] s[i].0@ != #[trigger] s[j].0@
}

proof fn mapa_de_reemplazo(s: Seq<(String, Option<u128>)>, i: int, e: (String, Option<u128>))
    requires
        nombres_distintos(s),
        0 <= i < s.len(),
        s[i].0@ == e.0@,
    ensures
        mapa_de(s.update(i, e)) == mapa_de(s).insert(e.0@, e.1),
        nombres_distintos(s.update(i, e)),
    decreases s.len(),
{
    let t = s.update(i, e);
    if i == s.len() - 1 {
        assert(t.drop_last() =~= s.drop_last());
        assert(mapa_de(t) =~= mapa_de(s).insert(e.0@, e.1));
    } else {
        assert(t.drop_last() =~= s.drop_last().update(i, e));
        assert(s.drop_last()[i].0@ == e.0@);
        mapa_de_reemplazo(s.drop_last(), i, e);
        assert(s.last().0@ != e.0@) by {
            assert(s[i].0@ != s[s.len() - 1].0@);
        }
        assert(mapa_de(t) =~= mapa_de(s).insert(e.0@, e.1));
    }
}

/// A map from supplier name to the code under which that supplier knows a
/// product (`None` where it has none).
#[derive(Debug)]
pub struct CodigosProveedores {
    entradas: Vec<(String, Option<u128>)>,
}

impl View for CodigosProveedores {
    type V = Map<Seq<char>, Option<u128>>;

    closed spec fn view(&self) -> Map<Seq<char>, Option<u128>> {
        mapa_de(self.entradas@)
    }
}

impl CodigosProveedores {
    #[verifier::type_invariant]
    spec fn bien_formado(self) -> bool {
        nombres_distintos(self.entradas@)
    }

    /// The empty map.
    pub fn new() -> (r: CodigosProveedores)
        ensures
            r@ == Map::<Seq<char>, Option<u128>>::empty(),
    {
        CodigosProveedores { entradas: Vec::new() }
    }

    /// Sets the code of `nombre` to `codigo`, replacing any code it had.
    pub fn insertar(&mut self, nombre: String, codigo: Option<u128>)
        ensures
            final(self)@ == old(self)@.insert(nombre@, codigo),
    {
        proof {
            use_type_invariant(&*self);
        }
        let mut e: Vec<(String, Option<u128>)> = Vec::new();
        std::mem::swap(&mut e, &mut self.entradas);
        let ghost original = e@;
        let mut i: usize = 0;
        while i < e.len()
            invariant
                e@ == original,
                original == old(self).entradas@,
                nombres_distintos(original),
                i <= e.len(),
                forall|j: int| 0 <= j < i ==> (#[trigger] e@[j]).0@ != nombre@,
            decreases e.len() - i,
        {
            if e[i].0 == nombre {
                proof {
                    mapa_de_reemplazo(e@, i as int, (nombre, codigo));
                }
                e.set(i, (nombre, codigo));
                self.entradas = e;
                return;
            }
            i = i + 1;
        }
        e.push((nombre, codigo));
        assert(e@.drop_last() =~= original);
        self.entradas = e;
    }

    /// The entries of the map, one per name, in no particular order.
    pub fn entradas(&self) -> (r: &Vec<(String, Option<u128>)>)
        ensures
            mapa_de(r@) == self@,
            nombres_distintos(r@),
    {
        proof {
            use_type_invariant(self);
        }
        &self.entradas
    }
}

impl Default for CodigosProveedores {
    /// The empty map.
    fn default() -> (r: Self)
        ensures
            r@ == Map::<Seq<char>, Option<u128>>::empty(),
    {
        CodigosProveedores::new()
    }
}

impl Clone for CodigosProveedores {
    fn clone(&self) -> (r: Self)
        ensures
            r@ == self@,
    {
        proof {
            use_type_invariant(self);
        }
        let mut e: Vec<(String, Option<u128>)> = Vec::new();
        let mut i: usize = 0;
        while i < self.entradas.len()
            invariant
                i <= self.entradas.len(),
                nombres_distintos(self.entradas@),
                e@ == self.entradas@.subrange(0, i as int),
            decreases self.entradas.len() - i,
        {
            let par = (self.entradas[i].0.clone(), self.entradas[i].1);
            e.push(par);
            i = i + 1;
        }
        assert(e@ =~= self.entradas@);
        CodigosProveedores { entradas: e }
    }
}

/// The code that a field of the form stands for: none where it is empty,
/// else the number written in it.
pub open spec fn codigo_escrito(c: Seq<char>) -> Option<u128> {
    if c.len() == 0 {
        None
    } else {
        Some(lectura_u128(c).unwrap() as u128)
    }
}

/// A code field that can be read: empty, or a number that fits in a `u128`.
pub open spec fn codigo_legible(c: Seq<char>) -> bool {
    c.len() == 0 || lectura_u128(c) is Some
}

/// The map built from the first `n` supplier names and code fields of the
/// form, in order, a later name overriding an earlier equal one.
pub open spec fn mapa_de_formulario(p: Seq<String>, c: Seq<String>, n: nat) -> Map<
    Seq<char>,
    Option<u128>,
>
    decreases n,
{
    if n == 0 {
        Map::empty()
    } else {
        mapa_de_formulario(p, c, (n - 1) as nat).insert(
            p[n - 1]@,
            codigo_escrito(c[n - 1]@),
        )
    }
}

/// Reads the supplier codes of the product form: for each position but the
/// last of `codigos_prov`, the supplier named at that position of
/// `proveedores` gets no code if the field is empty, else the number written
/// in it.
pub fn codigos_desde_formulario(proveedores: &Vec<String>, codigos_prov: &Vec<String>) -> (r:
    CodigosProveedores)
    requires
        codigos_prov.len() >= 1,
        proveedores.len() >= codigos_prov.len() - 1,
        forall|i: int| 0 <= i < codigos_prov.len() - 1 ==> codigo_legible(#[trigger] codigos_prov[i]@),
    ensures
        r@ == mapa_de_formulario(proveedores@, codigos_prov@, (codigos_prov.len() - 1) as nat),
{
    let mut res = CodigosProveedores::new();
    let n = codigos_prov.len() - 1;
    let mut i: usize = 0;
    while i < n
        invariant
            n == codigos_prov.len() - 1,
            proveedores.len() >= n,
            i <= n,
            forall|k: int| 0 <= k < n ==> codigo_legible(#[trigger] codigos_prov[k]@),
            res@ == mapa_de_formulario(proveedores@, codigos_prov@, i as nat),
        decreases n - i,
    {
        let texto = caracteres(codigos_prov[i].as_str());
        assert(codigo_legible(codigos_prov[i as int]@));
        if texto.len() == 0 {
            res.insertar(proveedores[i].clone(), None);
        } else {
            match leer_u128(&texto) {
                Some(c) => {
                    res.insertar(proveedores[i].clone(), Some(c));
                },
                None => {
                    assert(false);
                },
            }
        }
        i = i + 1;
    }
    res
}

/// The map read from the form holds exactly the supplier names of the
/// positions read, and each name has the code of its last position.
pub proof fn mapa_de_formulario_por_ultima_aparicion(p: Seq<String>, c: Seq<String>, n: nat)
    requires
        n <= p.len(),
        n <= c.len(),
    ensures
        forall|k: Seq<char>|
            #[trigger] mapa_de_formulario(p, c, n).dom().contains(k) <==> exists|i: int|
                0 <= i < n && (#[trigger] p[i])@ == k,
        forall|i: int|
            0 <= i < n && (forall|j: int| i < j < n ==> (#[trigger] p[j])@ != p[i]@) ==> (
            #[trigger] mapa_de_formulario(p, c, n)[p[i]@]) == codigo_escrito(c[i]@),
    decreases n,
{
    if n > 0 {
        mapa_de_formulario_por_ultima_aparicion(p, c, (n - 1) as nat);
        let m = mapa_de_formulario(p, c, n);
        let m0 = mapa_de_formulario(p, c, (n - 1) as nat);
        assert forall|k: Seq<char>| #[trigger] m.dom().contains(k) <==> exists|i: int|
            0 <= i < n && (#[trigger] p[i])@ == k by {
            if m.dom().contains(k) && k != p[n - 1]@ {
                assert(m0.dom().contains(k));
            }
            if k == p[n - 1]@ {
                assert(p[n - 1]@ == k);
            }
        }
        assert forall|i: int|
            0 <= i < n && (forall|j: int| i < j < n ==> (#[trigger] p[j])@ != p[i]@) implies (
            #[trigger] m[p[i]@]) == codigo_escrito(c[i]@) by {
            if i < n - 1 {
                assert(p[n - 1]@ != p[i]@);
                assert forall|j: int| i < j < n - 1 implies (#[trigger] p[j])@ != p[i]@ by {
                    assert(i < j < n);
                }
            }
        }
    }
}

/// For a supplier named last at position `i` of the positions read, the map
/// gives no code where the field at `i` is empty, and otherwise the number
/// written in the field, whatever its length, where `str::parse::<u128>`
/// reads one.
pub proof fn codigo_leido_del_formulario(p: Seq<String>, c: Seq<String>, n: nat, i: int)
    requires
        0 <= i < n,
        n <= p.len(),
        n <= c.len(),
        forall|j: int| i < j < n ==> (#[trigger] p[j])@ != p[i]@,
    ensures
        mapa_de_formulario(p, c, n).dom().contains(p[i]@),
        c[i]@.len() == 0 ==> mapa_de_formulario(p, c, n)[p[i]@] is None,
        c[i]@.len() > 0 && entero_escrito(c[i]@, false) is Some && 0 <= entero_escrito(
            c[i]@,
            false,
        ).unwrap() <= u128::MAX ==> mapa_de_formulario(p, c, n)[p[i]@] == Some(
            entero_escrito(c[i]@, false).unwrap() as u128,
        ),
{
    mapa_de_formulario_por_ultima_aparicion(p, c, n);
    assert(mapa_de_formulario(p, c, n)[p[i]@] == codigo_escrito(c[i]@));
}

} // verus!
