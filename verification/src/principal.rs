//! A simple point of sale: products read from the fields of the product
//! form, two sales in progress, and the supplier names.
use vstd::prelude::*;
use vstd::std_specs::cmp::PartialEqSpec;
use vstd::string::StringExecFns;
use crate::codigos::CodigosProveedores;
use crate::numero::Decimal;
use crate::texto::{caracteres, leer_i32, leer_usize, lectura_i32, lectura_usize, mismo_texto};

verus! {

/// Where the products are kept.
pub const RUTA_PRODUCTOS: &'static str = "Productos.json";

/// Where the supplier names are kept.
pub const RUTA_PROVEEDORES: &'static str = "Proveedores.json";

/// How a product is measured: by weight in grams, by units, or by volume in
/// litres.
#[derive(Clone, Copy, Debug)]
pub enum Presentacion {
    Grs(Decimal),
    Un(i32),
    Lt(Decimal),
}

impl Default for Presentacion {
    /// No units.
    fn default() -> (r: Self)
        ensures
            r == Presentacion::Un(0),
    {
        Presentacion::Un(0)
    }
}

/// The presentation names that the product form accepts.
pub open spec fn presentacion_valida(p: Seq<char>) -> bool {
    p == "Grs"@ || p == "Un"@ || p == "Lt"@
}

/// The quantity that the form gives for the presentation named `p`: the
/// decimal `medida` for weight and volume, the integer written in `cantidad`
/// for units.
pub open spec fn presentacion_leida(p: Seq<char>, cantidad: Seq<char>, medida: Decimal) -> Presentacion {
    if p == "Grs"@ {
        Presentacion::Grs(medida)
    } else if p == "Un"@ {
        Presentacion::Un(lectura_i32(cantidad).unwrap() as i32)
    } else {
        Presentacion::Lt(medida)
    }
}

/// A product of the catalogue.
#[derive(Clone, Debug, Default)]
pub struct Producto {
    pub proveedores_codigos: CodigosProveedores,
    pub codigo_de_barras: usize,
    pub precio_de_venta: Decimal,
    pub porcentaje: Decimal,
    pub precio_de_costo: Decimal,
    pub tipo_producto: String,
    pub marca: String,
    pub variedad: String,
    pub cantidad: Presentacion,
}

/// The form fields from which a product is read: the bar code is a
/// `usize`, the presentation one of the accepted names, and for units the
/// quantity an `i32`.
pub open spec fn formulario_valido(codigo: Seq<char>, cantidad: Seq<char>, presentacion: Seq<char>) -> bool {
    &&& lectura_usize(codigo) is Some
    &&& presentacion_valida(presentacion)
    &&& presentacion == "Un"@ ==> lectura_i32(cantidad) is Some
}

impl Producto {
    /// `self` is the product read from the form fields given.
    pub open spec fn leido_de(
        self,
        proveedores_codigos: Map<Seq<char>, Option<u128>>,
        codigo: Seq<char>,
        precio_de_venta: Decimal,
        porcentaje: Decimal,
        precio_de_costo: Decimal,
        tipo_producto: Seq<char>,
        marca: Seq<char>,
        variedad: Seq<char>,
        cantidad: Seq<char>,
        presentacion: Seq<char>,
        medida: Decimal,
    ) -> bool {
        &&& self.proveedores_codigos@ == proveedores_codigos
        &&& self.codigo_de_barras == lectura_usize(codigo).unwrap()
        &&& self.precio_de_venta == precio_de_venta
        &&& self.porcentaje == porcentaje
        &&& self.precio_de_costo == precio_de_costo
        &&& self.tipo_producto@ == tipo_producto
        &&& self.marca@ == marca
        &&& self.variedad@ == variedad
        &&& self.cantidad == presentacion_leida(presentacion, cantidad, medida)
    }

    /// Reads a product from the fields of the product form. The bar code is
    /// read as a `usize`; the presentation decides the quantity: grams and
    /// litres take `medida`, the decimal that the application read from
    /// `cantidad`, units take the integer written in `cantidad`.
    pub fn new(
        proveedores_codigos: CodigosProveedores,
        codigo: &str,
        precio_de_venta: Decimal,
        porcentaje: Decimal,
        precio_de_costo: Decimal,
        tipo_producto: &str,
        marca: &str,
        variedad: &str,
        cantidad: &str,
        presentacion: &str,
        medida: Decimal,
    ) -> (r: Producto)
        requires
            formulario_valido(codigo@, cantidad@, presentacion@),
        ensures
            r.leido_de(
                proveedores_codigos@,
                codigo@,
                precio_de_venta,
                porcentaje,
                precio_de_costo,
                tipo_producto@,
                marca@,
                variedad@,
                cantidad@,
                presentacion@,
                medida,
            ),
    {
        let p = caracteres(presentacion);
        let cant = if mismo_texto(&p, &caracteres("Grs")) {
            Presentacion::Grs(medida)
        } else if mismo_texto(&p, &caracteres("Un")) {
            Presentacion::Un(leer_i32(&caracteres(cantidad)).unwrap())
        } else {
            Presentacion::Lt(medida)
        };
        Producto {
            proveedores_codigos,
            codigo_de_barras: leer_usize(&caracteres(codigo)).unwrap(),
            precio_de_venta,
            porcentaje,
            precio_de_costo,
            tipo_producto: tipo_producto.to_owned(),
            marca: marca.to_owned(),
            variedad: variedad.to_owned(),
            cantidad: cant,
        }
    }
}

impl PartialEq for Producto {
    /// Two products are the same product when their bar codes are equal.
    fn eq(&self, other: &Self) -> (r: bool) {
        self.codigo_de_barras == other.codigo_de_barras
    }
}

impl vstd::std_specs::cmp::PartialEqSpecImpl for Producto {
    open spec fn obeys_eq_spec() -> bool {
        true
    }

    open spec fn eq_spec(&self, other: &Self) -> bool {
        self.codigo_de_barras == other.codigo_de_barras
    }
}

/// Products are compared by bar code alone, and that comparison is an
/// equivalence: reflexive, symmetric and transitive.
pub proof fn igualdad_de_productos(a: Producto, b: Producto, c: Producto)
    ensures
        a.eq_spec(&a),
        a.eq_spec(&b) == b.eq_spec(&a),
        a.eq_spec(&b) && b.eq_spec(&c) ==> a.eq_spec(&c),
        a.eq_spec(&b) <==> a.codigo_de_barras == b.codigo_de_barras,
{
}

/// A sale in progress: its total and the products in it.
pub struct Venta<'a> {
    pub monto_total: Decimal,
    pub productos: Vec<&'a Producto>,
}

impl<'a> Venta<'a> {
    /// An empty sale: total zero and no products.
    pub fn new() -> (r: Venta<'a>)
        ensures
            r.monto_total.bits == 0,
            r.productos@.len() == 0,
    {
        Venta { monto_total: Decimal::cero(), productos: Vec::new() }
    }
}

/// The products, two sales in progress and the supplier names, with the
/// paths where products and suppliers are kept.
pub struct Sistema<'a> {
    pub productos: Vec<Producto>,
    pub ventas: (Venta<'a>, Venta<'a>),
    pub proveedores: Vec<String>,
    pub path_prods: String,
    pub path_proveedores: String,
}

impl<'a> Sistema<'a> {
    /// The system over the products and supplier names read from their
    /// files, with both sales empty.
    pub fn new(productos: Vec<Producto>, proveedores: Vec<String>) -> (r: Sistema<'a>)
        ensures
            r.productos == productos,
            r.proveedores == proveedores,
            r.ventas.0.monto_total.bits == 0,
            r.ventas.0.productos@.len() == 0,
            r.ventas.1.monto_total.bits == 0,
            r.ventas.1.productos@.len() == 0,
            r.path_prods@ == RUTA_PRODUCTOS@,
            r.path_proveedores@ == RUTA_PROVEEDORES@,
    {
        Sistema {
            productos,
            ventas: (Venta::new(), Venta::new()),
            proveedores,
            path_prods: RUTA_PRODUCTOS.to_owned(),
            path_proveedores: RUTA_PROVEEDORES.to_owned(),
        }
    }

    /// Adds the product read from the form fields given, after the products
    /// already there.
    pub fn agregar(
        &mut self,
        proveedores_codigos: CodigosProveedores,
        codigo_de_barras: &str,
        precio_de_venta: Decimal,
        porcentaje: Decimal,
        precio_de_costo: Decimal,
        tipo_producto: &str,
        marca: &str,
        variedad: &str,
        cantidad: &str,
        presentacion: &str,
        medida: Decimal,
    )
        requires
            formulario_valido(codigo_de_barras@, cantidad@, presentacion@),
        ensures
            final(self).productos@.len() == old(self).productos@.len() + 1,
            final(self).productos@.drop_last() == old(self).productos@,
            final(self).productos@.last().leido_de(
                proveedores_codigos@,
                codigo_de_barras@,
                precio_de_venta,
                porcentaje,
                precio_de_costo,
                tipo_producto@,
                marca@,
                variedad@,
                cantidad@,
                presentacion@,
                medida,
            ),
            final(self).proveedores == old(self).proveedores,
            final(self).ventas == old(self).ventas,
            final(self).path_prods == old(self).path_prods,
            final(self).path_proveedores == old(self).path_proveedores,
    {
        let prod = Producto::new(
            proveedores_codigos,
            codigo_de_barras,
            precio_de_venta,
            porcentaje,
            precio_de_costo,
            tipo_producto,
            marca,
            variedad,
            cantidad,
            presentacion,
            medida,
        );
        self.productos.push(prod);
        assert(self.productos@.drop_last() =~= old(self).productos@);
    }
}

/// The greeting that the search command answers with.
pub fn buscador(name: &str) -> (r: String)
    ensures
        r@ == "Hello, "@ + name@ + "! You've been greeted from Rust!"@,
{
    let mut r = "Hello, ".to_owned();
    r.append(name);
    r.append("! You've been greeted from Rust!");
    r
}

} // verus!
