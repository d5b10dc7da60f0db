//! The records of the point of sale with a catalogue: what it sells (products,
//! goods sold by weight, and departments), its suppliers, which supplier
//! carries which product, its settings, and its sales. Each record holds what
//! the system reads of it.
use vstd::prelude::*;
use crate::numero::Decimal;

verus! {

/// A product sold by the unit.
#[derive(Debug)]
pub struct Producto {
    pub id: i64,
    pub tipo_producto: String,
    pub marca: String,
}

impl Clone for Producto {
    fn clone(&self) -> (r: Self)
        ensures
            r == *self,
    {
        Producto { id: self.id, tipo_producto: self.tipo_producto.clone(), marca: self.marca.clone() }
    }
}

/// Goods sold by weight.
#[derive(Clone, Copy, Debug)]
pub struct Pesable {
    pub id: i64,
}

/// A department, sold as an open amount.
#[derive(Clone, Copy, Debug)]
pub struct Rubro {
    pub id: i64,
}

/// Something that can go into a sale, with the quantity of it: units of a
/// product, a weight of goods sold by weight, or units of a department.
#[derive(Debug)]
pub enum Valuable {
    Prod((u32, Producto)),
    Pes((Decimal, Pesable)),
    Rub((u32, Rubro)),
}

impl Clone for Valuable {
    fn clone(&self) -> (r: Self)
        ensures
            r == *self,
    {
        match self {
            Valuable::Prod((c, p)) => Valuable::Prod((*c, p.clone())),
            Valuable::Pes((c, p)) => Valuable::Pes((*c, *p)),
            Valuable::Rub((c, r)) => Valuable::Rub((*c, *r)),
        }
    }
}

impl Valuable {
    /// The id of the product, goods or department.
    pub open spec fn id_spec(&self) -> i64 {
        match self {
            Valuable::Prod((_, p)) => p.id,
            Valuable::Pes((_, p)) => p.id,
            Valuable::Rub((_, r)) => r.id,
        }
    }

    /// The id of the product, goods or department.
    #[verifier::when_used_as_spec(id_spec)]
    pub fn id(&self) -> (r: i64)
        ensures
            r == self.id_spec(),
    {
        match self {
            Valuable::Prod((_, p)) => p.id,
            Valuable::Pes((_, p)) => p.id,
            Valuable::Rub((_, r)) => r.id,
        }
    }
}

/// A supplier: its position in the supplier list, its name and its phone.
#[derive(Debug)]
pub struct Proveedor {
    pub id: i64,
    pub nombre: String,
    pub contacto: Option<i64>,
}

impl Clone for Proveedor {
    fn clone(&self) -> (r: Self)
        ensures
            r == *self,
    {
        Proveedor { id: self.id, nombre: self.nombre.clone(), contacto: self.contacto }
    }
}

impl Proveedor {
    pub fn new(id: i64, nombre: String, contacto: Option<i64>) -> (r: Proveedor)
        ensures
            r.id == id,
            r.nombre == nombre,
            r.contacto == contacto,
    {
        Proveedor { id, nombre, contacto }
    }

    pub fn get_nombre(&self) -> (r: &String)
        ensures
            *r == self.nombre,
    {
        &self.nombre
    }
}

/// That the supplier at position `id_proveedor` carries the product at
/// position `id_producto`, under its own code where it has one.
#[derive(Clone, Copy, Debug)]
pub struct RelacionProdProv {
    pub id_producto: i64,
    pub id_proveedor: i64,
    pub codigo_interno: Option<i64>,
}

impl RelacionProdProv {
    pub fn new(id_producto: i64, id_proveedor: i64, codigo_interno: Option<i64>) -> (r:
        RelacionProdProv)
        ensures
            r == (RelacionProdProv { id_producto, id_proveedor, codigo_interno }),
    {
        RelacionProdProv { id_producto, id_proveedor, codigo_interno }
    }
}

/// The settings of the system: the rounding policy applied to prices.
#[derive(Clone, Copy, Debug)]
pub struct Config {
    pub politica_redondeo: Decimal,
}

impl Default for Config {
    /// The settings when none were saved: a zero rounding policy.
    fn default() -> (r: Self)
        ensures
            r.politica_redondeo.bits == 0,
    {
        Config { politica_redondeo: Decimal::cero() }
    }
}

/// What a sale is: its total, what was paid of it, and what is in it.
pub struct VentaVista {
    pub monto_total: Decimal,
    pub monto_pagado: Decimal,
    pub productos: Seq<Valuable>,
}

/// A sale.
#[derive(Debug)]
pub struct Venta {
    pub monto_total: Decimal,
    pub monto_pagado: Decimal,
    pub productos: Vec<Valuable>,
}

impl View for Venta {
    type V = VentaVista;

    open spec fn view(&self) -> VentaVista {
        VentaVista {
            monto_total: self.monto_total,
            monto_pagado: self.monto_pagado,
            productos: self.productos@,
        }
    }
}

/// A sale with nothing in it: total and payment zero.
pub open spec fn venta_vacia() -> VentaVista {
    VentaVista {
        monto_total: Decimal { bits: 0 },
        monto_pagado: Decimal { bits: 0 },
        productos: Seq::empty(),
    }
}

impl Venta {
    /// A new, empty sale.
    pub fn new() -> (r: Venta)
        ensures
            r@ == venta_vacia(),
    {
        Venta { monto_total: Decimal::cero(), monto_pagado: Decimal::cero(), productos: Vec::new() }
    }
}

impl Clone for Venta {
    fn clone(&self) -> (r: Self)
        ensures
            r@ == self@,
    {
        let mut productos: Vec<Valuable> = Vec::new();
        let mut i: usize = 0;
        while i < self.productos.len()
            invariant
                i <= self.productos.len(),
                productos@ == self.productos@.subrange(0, i as int),
            decreases self.productos.len() - i,
        {
            productos.push(self.productos[i].clone());
            i = i + 1;
        }
        assert(productos@ =~= self.productos@);
        Venta { monto_total: self.monto_total, monto_pagado: self.monto_pagado, productos }
    }
}

} // verus!
