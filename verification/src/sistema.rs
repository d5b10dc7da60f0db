//! A point of sale with a catalogue: what is sold, the
//! suppliers and which of them carries each product, the settings, two sales
//! in progress, the sales put aside, and the record of closed sales.
use vstd::prelude::*;
use crate::catalogo::{
    Config, Pesable, Producto, Proveedor, RelacionProdProv, Rubro, Valuable, Venta, VentaVista,
    venta_vacia,
};
use crate::numero::Decimal;
use crate::texto::{
    entero_escrito, a_minusculas, caracteres, comparar, contiene, contiene_texto, filtrar_numericos,
    iguales_ignorando_mayusculas, iguales_sin_mayusculas, leer_i64, lectura_i64, minusculas,
    precede, solo_numericos, Orden,
};

verus! {

/// Where the products are kept.
pub const RUTA_PRODUCTOS: &'static str = "Productos.json";

/// Where the suppliers are kept.
pub const RUTA_PROVEEDORES: &'static str = "Proveedores.json";

/// Where the product-supplier relations are kept.
pub const RUTA_RELACIONES: &'static str = "Relaciones.json";

/// Where the settings are kept.
pub const RUTA_CONFIGS: &'static str = "Configs.json";

/// Where the departments are kept.
pub const RUTA_RUBROS: &'static str = "Rubros.json";

/// Where the goods sold by weight are kept.
pub const RUTA_PESABLES: &'static str = "Pesables.json";

/// What the system is: its settings, its catalogue, its two sales in
/// progress, its suppliers and relations, the sales put aside and the closed
/// sales, and the paths where products, suppliers, relations and settings are
/// kept.
pub struct SistemaVista {
    pub configs: Config,
    pub productos: Seq<Valuable>,
    pub ventas: (VentaVista, VentaVista),
    pub proveedores: Seq<Proveedor>,
    pub relaciones: Seq<RelacionProdProv>,
    pub stash: Seq<VentaVista>,
    pub registro: Seq<VentaVista>,
    pub path_productos: Seq<char>,
    pub path_proveedores: Seq<char>,
    pub path_relaciones: Seq<char>,
    pub path_configs: Seq<char>,
}

/// The sales of a list, each by what it is.
pub open spec fn vistas_de_ventas(s: Seq<Venta>) -> Seq<VentaVista> {
    s.map_values(|v: Venta| v@)
}

impl SistemaVista {
    /// The sale in progress at position `pos`: the second for 1, the first
    /// otherwise.
    pub open spec fn venta(self, pos: usize) -> VentaVista {
        if pos == 1 {
            self.ventas.1
        } else {
            self.ventas.0
        }
    }

    /// The system with the sale at position `pos` (the second for 1, the
    /// first otherwise) replaced by `v`.
    pub open spec fn con_venta(self, pos: usize, v: VentaVista) -> SistemaVista {
        if pos == 1 {
            SistemaVista { ventas: (self.ventas.0, v), ..self }
        } else {
            SistemaVista { ventas: (v, self.ventas.1), ..self }
        }
    }

    /// The system once the sale at `pos` is closed: it goes to the record and
    /// an empty sale takes its place.
    pub open spec fn tras_cerrar(self, pos: usize) -> SistemaVista {
        SistemaVista {
            registro: self.registro.push(self.venta(pos)),
            ..self.con_venta(pos, venta_vacia())
        }
    }

    /// The system once the sale at `pos` is put aside: it goes to the end of
    /// the sales put aside and an empty sale takes its place.
    pub open spec fn tras_guardar(self, pos: usize) -> SistemaVista {
        SistemaVista { stash: self.stash.push(self.venta(pos)), ..self.con_venta(pos, venta_vacia()) }
    }

    /// The system once the sale put aside at `index` is taken back to
    /// position `pos`. At position 0 the sale there is dropped; at position 1
    /// it is first put aside at the end, and `index` counts with it.
    pub open spec fn tras_recuperar(self, pos: usize, index: usize) -> SistemaVista {
        if pos == 0 {
            SistemaVista {
                ventas: (self.stash[index as int], self.ventas.1),
                stash: self.stash.remove(index as int),
                ..self
            }
        } else {
            let s = self.stash.push(self.ventas.1);
            SistemaVista {
                ventas: (self.ventas.0, s[index as int]),
                stash: s.remove(index as int),
                ..self
            }
        }
    }

    /// A supplier whose name equals `nombre` without regard to ASCII case is
    /// already there.
    pub open spec fn proveedor_registrado(self, nombre: Seq<char>) -> bool {
        exists|i: int|
            0 <= i < self.proveedores.len() && iguales_sin_mayusculas(
                (#[trigger] self.proveedores[i]).nombre@,
                nombre,
            )
    }
}

/// The catalogue at start: each product by the unit with quantity 0, then
/// each good sold by weight with weight zero, then each department with
/// quantity 0, each list in its order.
pub open spec fn catalogo_inicial(productos: Seq<Producto>, pesables: Seq<Pesable>, rubros: Seq<Rubro>) -> Seq<
    Valuable,
> {
    productos.map_values(|p: Producto| Valuable::Prod((0u32, p))) + pesables.map_values(
        |p: Pesable| Valuable::Pes((Decimal { bits: 0 }, p)),
    ) + rubros.map_values(|r: Rubro| Valuable::Rub((0u32, r)))
}

/// The position of the last item of `s` with the id `id`.
pub open spec fn ultimo_con_id(s: Seq<Valuable>, id: i64) -> Option<int>
    decreases s.len(),
{
    if s.len() == 0 {
        None
    } else if s.last().id_spec() == id {
        Some(s.len() - 1)
    } else {
        ultimo_con_id(s.drop_last(), id)
    }
}

/// An integer read as an `i64`, where it was read.
pub open spec fn como_i64(o: Option<int>) -> Option<i64> {
    match o {
        Some(v) => Some(v as i64),
        None => None,
    }
}

/// The relations recorded when a product is added at position `indice`: one
/// per supplier position `i` below `n`, with the code written in `codigos[i]`
/// where it reads as an `i64`.
pub open spec fn relaciones_nuevas(indice: int, codigos: Seq<String>, n: nat) -> Seq<
    RelacionProdProv,
> {
    Seq::new(
        n,
        |i: int|
            RelacionProdProv {
                id_producto: indice as i64,
                id_proveedor: i as i64,
                codigo_interno: como_i64(lectura_i64(codigos[i]@)),
            },
    )
}

/// The products by the unit of the catalogue, in order.
pub open spec fn solo_productos(s: Seq<Valuable>) -> Seq<Producto>
    decreases s.len(),
{
    if s.len() == 0 {
        Seq::empty()
    } else {
        match s.last() {
            Valuable::Prod((_, p)) => solo_productos(s.drop_last()).push(p),
            _ => solo_productos(s.drop_last()),
        }
    }
}

/// Which text of a product a search looks at.
pub enum Campo {
    Marca,
    TipoProducto,
}

/// The text of `p` that a search by `campo` looks at.
pub open spec fn texto_de(p: Producto, campo: Campo) -> Seq<char> {
    match campo {
        Campo::Marca => p.marca@,
        Campo::TipoProducto => p.tipo_producto@,
    }
}

/// `v` is a product by the unit whose text for `campo`, in small letters,
/// contains `filtro` in small letters.
pub open spec fn coincide(v: Valuable, campo: Campo, filtro: Seq<char>) -> bool {
    match v {
        Valuable::Prod((_, p)) => contiene(minusculas(texto_de(p, campo)), minusculas(filtro)),
        _ => false,
    }
}

/// `t` is the text for `campo` of some product of `s` that the search for
/// `filtro` finds.
pub open spec fn hallado(s: Seq<Valuable>, campo: Campo, filtro: Seq<char>, t: Seq<char>) -> bool {
    exists|i: int|
        0 <= i < s.len() && coincide(#[trigger] s[i], campo, filtro) && (match s[i] {
            Valuable::Prod((_, p)) => texto_de(p, campo) == t,
            _ => false,
        })
}

/// Each text comes strictly before the next in the order of `String`.
pub open spec fn ordenados(s: Seq<Seq<char>>) -> bool {
    forall|i: int| 0 <= i < s.len() - 1 ==> precede(#[trigger] s[i], s[i + 1])
}

/// The texts of a list of strings.
pub open spec fn textos(s: Seq<String>) -> Seq<Seq<char>> {
    s.map_values(|t: String| t@)
}

/// The settings, catalogue, suppliers, relations, sales in progress, sales
/// put aside and closed sales of a point of sale.
pub struct Sistema {
    configs: Config,
    productos: Vec<Valuable>,
    ventas: (Venta, Venta),
    proveedores: Vec<Proveedor>,
    path_productos: String,
    path_proveedores: String,
    path_relaciones: String,
    path_configs: String,
    relaciones: Vec<RelacionProdProv>,
    stash: Vec<Venta>,
    registro: Vec<Venta>,
}

impl View for Sistema {
    type V = SistemaVista;

    closed spec fn view(&self) -> SistemaVista {
        SistemaVista {
            configs: self.configs,
            productos: self.productos@,
            ventas: (self.ventas.0@, self.ventas.1@),
            proveedores: self.proveedores@,
            relaciones: self.relaciones@,
            stash: vistas_de_ventas(self.stash@),
            registro: vistas_de_ventas(self.registro@),
            path_productos: self.path_productos@,
            path_proveedores: self.path_proveedores@,
            path_relaciones: self.path_relaciones@,
            path_configs: self.path_configs@,
        }
    }
}

fn copiar_ventas(s: &Vec<Venta>) -> (r: Vec<Venta>)
    ensures
        vistas_de_ventas(r@) == vistas_de_ventas(s@),
{
    let mut r: Vec<Venta> = Vec::new();
    let mut i: usize = 0;
    while i < s.len()
        invariant
            i <= s.len(),
            r@.len() == i,
            forall|k: int| 0 <= k < i ==> (#[trigger] r@[k])@ == s@[k]@,
        decreases s.len() - i,
    {
        r.push(s[i].clone());
        i = i + 1;
    }
    assert(vistas_de_ventas(r@) =~= vistas_de_ventas(s@));
    r
}

fn copiar_catalogo(s: &Vec<Valuable>) -> (r: Vec<Valuable>)
    ensures
        r@ == s@,
{
    let mut r: Vec<Valuable> = Vec::new();
    let mut i: usize = 0;
    while i < s.len()
        invariant
            i <= s.len(),
            r@ == s@.subrange(0, i as int),
        decreases s.len() - i,
    {
        r.push(s[i].clone());
        i = i + 1;
    }
    assert(r@ =~= s@);
    r
}

impl Sistema {
    /// The system over the products, goods sold by weight, departments,
    /// suppliers, relations and settings read from their files: the
    /// catalogue lists the products, then the goods, then the departments,
    /// all with quantity zero; the settings are the first saved, or the
    /// default where none were; both sales are empty and nothing is put aside
    /// or closed.
    pub fn new(
        productos: Vec<Producto>,
        pesables: Vec<Pesable>,
        rubros: Vec<Rubro>,
        proveedores: Vec<Proveedor>,
        relaciones: Vec<RelacionProdProv>,
        configs: Vec<Config>,
    ) -> (r: Sistema)
        ensures
            r@.productos == catalogo_inicial(productos@, pesables@, rubros@),
            r@.configs == (if configs@.len() == 0 {
                Config { politica_redondeo: Decimal { bits: 0 } }
            } else {
                configs@[0]
            }),
            r@.ventas == (venta_vacia(), venta_vacia()),
            r@.proveedores == proveedores@,
            r@.relaciones == relaciones@,
            r@.stash.len() == 0,
            r@.registro.len() == 0,
            r@.path_productos == RUTA_PRODUCTOS@,
            r@.path_proveedores == RUTA_PROVEEDORES@,
            r@.path_relaciones == RUTA_RELACIONES@,
            r@.path_configs == RUTA_CONFIGS@,
    {
        let mut catalogo: Vec<Valuable> = Vec::new();
        let mut i: usize = 0;
        while i < productos.len()
            invariant
                i <= productos.len(),
                catalogo@ == productos@.subrange(0, i as int).map_values(
                    |p: Producto| Valuable::Prod((0u32, p)),
                ),
            decreases productos.len() - i,
        {
            catalogo.push(Valuable::Prod((0, productos[i].clone())));
            assert(catalogo@ =~= productos@.subrange(0, i + 1).map_values(
                |p: Producto| Valuable::Prod((0u32, p)),
            ));
            i = i + 1;
        }
        let ghost con_productos = catalogo@;
        let mut j: usize = 0;
        while j < pesables.len()
            invariant
                j <= pesables.len(),
                catalogo@ == con_productos + pesables@.subrange(0, j as int).map_values(
                    |p: Pesable| Valuable::Pes((Decimal { bits: 0 }, p)),
                ),
            decreases pesables.len() - j,
        {
            catalogo.push(Valuable::Pes((Decimal::cero(), pesables[j])));
            assert(catalogo@ =~= con_productos + pesables@.subrange(0, j + 1).map_values(
                |p: Pesable| Valuable::Pes((Decimal { bits: 0 }, p)),
            ));
            j = j + 1;
        }
        let ghost con_pesables = catalogo@;
        let mut k: usize = 0;
        while k < rubros.len()
            invariant
                k <= rubros.len(),
                catalogo@ == con_pesables + rubros@.subrange(0, k as int).map_values(
                    |r: Rubro| Valuable::Rub((0u32, r)),
                ),
            decreases rubros.len() - k,
        {
            catalogo.push(Valuable::Rub((0, rubros[k])));
            assert(catalogo@ =~= con_pesables + rubros@.subrange(0, k + 1).map_values(
                |r: Rubro| Valuable::Rub((0u32, r)),
            ));
            k = k + 1;
        }
        assert(productos@.subrange(0, productos.len() as int) =~= productos@);
        assert(pesables@.subrange(0, pesables.len() as int) =~= pesables@);
        assert(rubros@.subrange(0, rubros.len() as int) =~= rubros@);
        let config = if configs.len() == 0 {
            Config::default()
        } else {
            configs[0]
        };
        let r = Sistema {
            configs: config,
            productos: catalogo,
            ventas: (Venta::new(), Venta::new()),
            proveedores,
            path_productos: RUTA_PRODUCTOS.to_owned(),
            path_proveedores: RUTA_PROVEEDORES.to_owned(),
            path_relaciones: RUTA_RELACIONES.to_owned(),
            path_configs: RUTA_CONFIGS.to_owned(),
            relaciones,
            stash: Vec::new(),
            registro: Vec::new(),
        };
        assert(r@.stash =~= Seq::<VentaVista>::empty());
        assert(r@.registro =~= Seq::<VentaVista>::empty());
        r
    }

    /// The catalogue.
    pub fn get_productos(&self) -> (r: &Vec<Valuable>)
        ensures
            r@ == self@.productos,
    {
        &self.productos
    }

    /// A copy of the catalogue.
    pub fn get_productos_cloned(&self) -> (r: Vec<Valuable>)
        ensures
            r@ == self@.productos,
    {
        copiar_catalogo(&self.productos)
    }

    /// The suppliers.
    pub fn get_proveedores(&self) -> (r: &Vec<Proveedor>)
        ensures
            r@ == self@.proveedores,
    {
        &self.proveedores
    }

    /// The relations between products and suppliers.
    pub fn get_relaciones(&self) -> (r: &Vec<RelacionProdProv>)
        ensures
            r@ == self@.relaciones,
    {
        &self.relaciones
    }

    /// The settings.
    pub fn get_configs(&self) -> (r: &Config)
        ensures
            *r == self@.configs,
    {
        &self.configs
    }

    /// The sale in progress at position `pos`, to change in place: the
    /// second for 1, the first otherwise.
    pub fn get_venta_mut(&mut self, pos: usize) -> (r: &mut Venta)
        ensures
            r@ == old(self)@.venta(pos),
            final(self)@ == old(self)@.con_venta(pos, final(r)@),
    {
        if pos == 1 {
            &mut self.ventas.1
        } else {
            &mut self.ventas.0
        }
    }

    /// Replaces the settings.
    pub fn set_configs(&mut self, configs: Config)
        ensures
            final(self)@ == (SistemaVista { configs, ..old(self)@ }),
    {
        self.configs = configs;
    }

    /// Whether a supplier's name equals `proveedor` without regard to ASCII
    /// case.
    pub fn proveedor_esta(&self, proveedor: &str) -> (r: bool)
        ensures
            r == self@.proveedor_registrado(proveedor@),
    {
        let mut res = false;
        let mut i: usize = 0;
        while i < self.proveedores.len()
            invariant
                i <= self.proveedores.len(),
                res == exists|j: int|
                    0 <= j < i && iguales_sin_mayusculas(
                        (#[trigger] self.proveedores@[j]).nombre@,
                        proveedor@,
                    ),
            decreases self.proveedores.len() - i,
        {
            if iguales_ignorando_mayusculas(self.proveedores[i].get_nombre().as_str(), proveedor) {
                res = true;
            }
            i = i + 1;
        }
        res
    }

    /// Adds `producto` to the catalogue with quantity zero and records, for
    /// each position `i` of `proveedores`, that the supplier at position `i`
    /// carries it under the code written in `codigos_prov[i]`, where that
    /// reads as an `i64`.
    pub fn agregar_producto(
        &mut self,
        proveedores: Vec<String>,
        codigos_prov: Vec<String>,
        producto: Producto,
    )
        requires
            codigos_prov.len() >= proveedores.len(),
            old(self)@.productos.len() < i64::MAX,
            proveedores.len() <= i64::MAX,
        ensures
            final(self)@ == (SistemaVista {
                productos: old(self)@.productos.push(Valuable::Prod((0u32, producto))),
                relaciones: old(self)@.relaciones + relaciones_nuevas(
                    old(self)@.productos.len() as int,
                    codigos_prov@,
                    proveedores.len() as nat,
                ),
                ..old(self)@
            }),
    {
        self.productos.push(Valuable::Prod((0, producto)));
        let indice = self.productos.len() as i64 - 1;
        let ghost antes = old(self).relaciones@;
        let mut i: usize = 0;
        while i < proveedores.len()
            invariant
                i <= proveedores.len(),
                proveedores.len() <= i64::MAX,
                codigos_prov.len() >= proveedores.len(),
                indice == old(self)@.productos.len(),
                self.relaciones@ == antes + relaciones_nuevas(
                    indice as int,
                    codigos_prov@,
                    i as nat,
                ),
                self.productos@ == old(self)@.productos.push(Valuable::Prod((0u32, producto))),
                self.configs == old(self).configs,
                self.ventas == old(self).ventas,
                self.proveedores == old(self).proveedores,
                self.stash == old(self).stash,
                self.registro == old(self).registro,
                self.path_productos == old(self).path_productos,
                self.path_proveedores == old(self).path_proveedores,
                self.path_relaciones == old(self).path_relaciones,
                self.path_configs == old(self).path_configs,
            decreases proveedores.len() - i,
        {
            let codigo = leer_i64(&caracteres(codigos_prov[i].as_str()));
            self.relaciones.push(RelacionProdProv::new(indice, i as i64, codigo));
            assert(self.relaciones@ =~= antes + relaciones_nuevas(
                indice as int,
                codigos_prov@,
                (i + 1) as nat,
            ));
            i = i + 1;
        }
    }

    /// The products by the unit of the catalogue, in order: what is saved to
    /// the products file.
    pub fn productos_de_catalogo(&self) -> (r: Vec<Producto>)
        ensures
            r@ == solo_productos(self@.productos),
    {
        let mut r: Vec<Producto> = Vec::new();
        let mut i: usize = 0;
        while i < self.productos.len()
            invariant
                i <= self.productos.len(),
                r@ == solo_productos(self.productos@.subrange(0, i as int)),
            decreases self.productos.len() - i,
        {
            assert(self.productos@.subrange(0, i + 1).drop_last() =~= self.productos@.subrange(
                0,
                i as int,
            ));
            match &self.productos[i] {
                Valuable::Prod((_, p)) => {
                    r.push(p.clone());
                },
                _ => {},
            }
            i = i + 1;
        }
        assert(self.productos@.subrange(0, self.productos.len() as int) =~= self.productos@);
        r
    }

    /// The supplier that the supplier form asks to add, or why it cannot be
    /// added. A name already there without regard to ASCII case is refused.
    /// A contact keeps its numeric characters, which must then read as an
    /// `i64`; an empty contact gives none. The new supplier's id is its
    /// position, the number of suppliers so far.
    pub fn nuevo_proveedor(&self, proveedor: &str, contacto: &str) -> (r: Result<Proveedor, String>)
        requires
            self@.proveedores.len() <= i64::MAX,
        ensures
            self@.proveedor_registrado(proveedor@) ==> (r matches Err(e) && e@
                == "Proveedor existente"@),
            !self@.proveedor_registrado(proveedor@) && contacto@.len() > 0 && lectura_i64(
                solo_numericos(contacto@),
            ) is None ==> (r matches Err(e) && e@ == "Error al convertir el numero"@),
            !self@.proveedor_registrado(proveedor@) && (contacto@.len() == 0 || lectura_i64(
                solo_numericos(contacto@),
            ) is Some) ==> (r matches Ok(p) && p.id == self@.proveedores.len() && p.nombre@
                == proveedor@ && p.contacto == (if contacto@.len() == 0 {
                None
            } else {
                como_i64(lectura_i64(solo_numericos(contacto@)))
            })),
    {
        if self.proveedor_esta(proveedor) {
            return Err("Proveedor existente".to_owned());
        }
        let id = self.proveedores.len() as i64;
        let texto = caracteres(contacto);
        if texto.len() > 0 {
            let numeros = filtrar_numericos(&texto);
            match leer_i64(&numeros) {
                Some(a) => Ok(Proveedor::new(id, proveedor.to_owned(), Some(a))),
                None => Err("Error al convertir el numero".to_owned()),
            }
        } else {
            Ok(Proveedor::new(id, proveedor.to_owned(), None))
        }
    }

    /// Adds a supplier after the others.
    pub fn agregar_proveedor(&mut self, proveedor: Proveedor)
        ensures
            final(self)@ == (SistemaVista {
                proveedores: old(self)@.proveedores.push(proveedor),
                ..old(self)@
            }),
    {
        self.proveedores.push(proveedor);
    }

    /// The last item of the catalogue with the id `id`, or
    /// "Producto no encontrado" where there is none.
    pub fn get_producto(&self, id: i64) -> (r: Result<Valuable, String>)
        ensures
            match ultimo_con_id(self@.productos, id) {
                Some(i) => r == Ok::<Valuable, String>(self@.productos[i]),
                None => r matches Err(e) && e@ == "Producto no encontrado"@,
            },
    {
        let mut res: Option<usize> = None;
        let mut i: usize = 0;
        while i < self.productos.len()
            invariant
                i <= self.productos.len(),
                match res {
                    Some(k) => k < i && ultimo_con_id(self.productos@.subrange(0, i as int), id) == Some(
                        k as int,
                    ),
                    None => ultimo_con_id(self.productos@.subrange(0, i as int), id) is None,
                },
            decreases self.productos.len() - i,
        {
            assert(self.productos@.subrange(0, i + 1).drop_last() =~= self.productos@.subrange(
                0,
                i as int,
            ));
            if self.productos[i].id() == id {
                res = Some(i);
            }
            i = i + 1;
        }
        assert(self.productos@.subrange(0, self.productos.len() as int) =~= self.productos@);
        match res {
            Some(k) => Ok(self.productos[k].clone()),
            None => Err("Producto no encontrado".to_owned()),
        }
    }

    /// A copy of the sale in progress at position `pos`: the first for 0,
    /// the second otherwise.
    pub fn get_venta(&self, pos: usize) -> (r: Venta)
        ensures
            r@ == (if pos == 0 {
                self@.ventas.0
            } else {
                self@.ventas.1
            }),
    {
        if pos == 0 {
            self.ventas.0.clone()
        } else {
            self.ventas.1.clone()
        }
    }

    /// The brands of the products by the unit whose brand, in small letters,
    /// contains `filtro` in small letters, each once, in the order of
    /// `String`.
    pub fn filtrar_marca(&self, filtro: &str) -> (r: Vec<String>)
        ensures
            ordenados(textos(r@)),
            forall|t: Seq<char>|
                #[trigger] textos(r@).contains(t) <==> hallado(
                    self@.productos,
                    Campo::Marca,
                    filtro@,
                    t,
                ),
    {
        self.filtrar(filtro, Campo::Marca)
    }

    /// The product types of the products by the unit whose type, in small
    /// letters, contains `filtro` in small letters, each once, in the order
    /// of `String`.
    pub fn filtrar_tipo_producto(&self, filtro: &str) -> (r: Vec<String>)
        ensures
            ordenados(textos(r@)),
            forall|t: Seq<char>|
                #[trigger] textos(r@).contains(t) <==> hallado(
                    self@.productos,
                    Campo::TipoProducto,
                    filtro@,
                    t,
                ),
    {
        self.filtrar(filtro, Campo::TipoProducto)
    }

    fn filtrar(&self, filtro: &str, campo: Campo) -> (r: Vec<String>)
        ensures
            ordenados(textos(r@)),
            forall|t: Seq<char>|
                #[trigger] textos(r@).contains(t) <==> hallado(self@.productos, campo, filtro@, t),
    {
        let f = a_minusculas(filtro);
        let patron = caracteres(f.as_str());
        let mut res: Vec<String> = Vec::new();
        let mut claves: Vec<Vec<char>> = Vec::new();
        let mut i: usize = 0;
        while i < self.productos.len()
            invariant
                i <= self.productos.len(),
                patron@ == minusculas(filtro@),
                claves@.len() == res@.len(),
                forall|k: int| 0 <= k < res@.len() ==> (#[trigger] claves@[k])@ == res@[k]@,
                ordenados(textos(res@)),
                forall|t: Seq<char>|
                    #[trigger] textos(res@).contains(t) <==> hallado(
                        self.productos@.subrange(0, i as int),
                        campo,
                        filtro@,
                        t,
                    ),
            decreases self.productos.len() - i,
        {
            let ghost actuales = self.productos@.subrange(0, i + 1);
            assert(actuales.drop_last() =~= self.productos@.subrange(0, i as int));
            assert(actuales.last() == self.productos@[i as int]);
            match &self.productos[i] {
                Valuable::Prod((_, p)) => {
                    let texto = match campo {
                        Campo::Marca => &p.marca,
                        Campo::TipoProducto => &p.tipo_producto,
                    };
                    let bajo = a_minusculas(texto.as_str());
                    if contiene_texto(&caracteres(bajo.as_str()), &patron) {
                        insertar_ordenado(&mut res, &mut claves, texto.clone());
                    }
                },
                _ => {},
            }
            assert forall|t: Seq<char>| #[trigger]
                textos(res@).contains(t) <==> hallado(actuales, campo, filtro@, t) by {
                hallado_al_extender(actuales, campo, filtro@, t);
            }
            i = i + 1;
        }
        assert(self.productos@.subrange(0, self.productos.len() as int) =~= self.productos@);
        res
    }

    /// Closes the sale at position `pos`: it goes to the record of closed
    /// sales and an empty sale takes its place.
    pub fn cerrar_venta(&mut self, pos: usize)
        requires
            pos < 2,
        ensures
            final(self)@ == old(self)@.tras_cerrar(pos),
    {
        if pos == 0 {
            self.registro.push(self.ventas.0.clone());
            self.ventas.0 = Venta::new();
        } else {
            self.registro.push(self.ventas.1.clone());
            self.ventas.1 = Venta::new();
        }
        assert(self@.registro =~= old(self)@.registro.push(old(self)@.venta(pos)));
        assert(self@ =~= old(self)@.tras_cerrar(pos));
    }

    /// Puts the sale at position `pos` aside: it goes to the end of the sales
    /// put aside and an empty sale takes its place.
    pub fn stash_sale(&mut self, pos: usize)
        requires
            pos < 2,
        ensures
            final(self)@ == old(self)@.tras_guardar(pos),
    {
        if pos == 0 {
            self.stash.push(self.ventas.0.clone());
            self.ventas.0 = Venta::new();
        } else {
            self.stash.push(self.ventas.1.clone());
            self.ventas.1 = Venta::new();
        }
        assert(self@.stash =~= old(self)@.stash.push(old(self)@.venta(pos)));
        assert(self@ =~= old(self)@.tras_guardar(pos));
    }

    /// Takes the sale put aside at `index` back to position `pos`. At
    /// position 0 the sale there is dropped; at position 1 it is first put
    /// aside at the end, and `index` counts with it. Any other position is
    /// refused with "error, solo hay 2 posiciones para ventas".
    pub fn unstash_sale(&mut self, pos: usize, index: usize) -> (r: Result<(), String>)
        requires
            pos == 0 ==> index < old(self)@.stash.len(),
            pos == 1 ==> index <= old(self)@.stash.len(),
        ensures
            pos < 2 ==> r is Ok && final(self)@ == old(self)@.tras_recuperar(pos, index),
            pos >= 2 ==> (r matches Err(e) && e@ == "error, solo hay 2 posiciones para ventas"@)
                && final(self)@ == old(self)@,
    {
        if pos == 0 {
            let v = self.stash.remove(index);
            self.ventas.0 = v;
            assert(self@.stash =~= old(self)@.stash.remove(index as int));
            assert(self@ =~= old(self)@.tras_recuperar(pos, index));
            Ok(())
        } else if pos == 1 {
            self.stash.push(self.ventas.1.clone());
            let ghost con_actual = self.stash@;
            assert(vistas_de_ventas(con_actual) =~= old(self)@.stash.push(old(self)@.ventas.1));
            let v = self.stash.remove(index);
            self.ventas.1 = v;
            assert(self@.stash =~= vistas_de_ventas(con_actual).remove(index as int));
            assert(self@ =~= old(self)@.tras_recuperar(pos, index));
            Ok(())
        } else {
            Err("error, solo hay 2 posiciones para ventas".to_owned())
        }
    }

    /// A copy of the sales put aside.
    pub fn get_stash(&self) -> (r: Vec<Venta>)
        ensures
            vistas_de_ventas(r@) == self@.stash,
    {
        copiar_ventas(&self.stash)
    }
}

/// The search finds `t` in `s` when it finds it in all of `s` but the last
/// item, or when the last item matches and its text is `t`.
proof fn hallado_al_extender(s: Seq<Valuable>, campo: Campo, filtro: Seq<char>, t: Seq<char>)
    requires
        s.len() > 0,
    ensures
        hallado(s, campo, filtro, t) <==> hallado(s.drop_last(), campo, filtro, t) || (coincide(
            s.last(),
            campo,
            filtro,
        ) && (match s.last() {
            Valuable::Prod((_, p)) => texto_de(p, campo) == t,
            _ => false,
        })),
{
    let previos = s.drop_last();
    if hallado(s, campo, filtro, t) {
        let w = choose|w: int|
            0 <= w < s.len() && coincide(#[trigger] s[w], campo, filtro) && (match s[w] {
                Valuable::Prod((_, q)) => texto_de(q, campo) == t,
                _ => false,
            });
        if w < s.len() - 1 {
            assert(previos[w] == s[w]);
        }
    }
    if hallado(previos, campo, filtro, t) {
        let w = choose|w: int|
            0 <= w < previos.len() && coincide(#[trigger] previos[w], campo, filtro) && (match previos[w] {
                Valuable::Prod((_, q)) => texto_de(q, campo) == t,
                _ => false,
            });
        assert(s[w] == previos[w]);
    }
    if coincide(s.last(), campo, filtro) && (match s.last() {
        Valuable::Prod((_, p)) => texto_de(p, campo) == t,
        _ => false,
    }) {
        assert(s[s.len() - 1] == s.last());
    }
}

/// Inserts `s` into the sorted list `res` where it belongs, unless it is
/// already there; `claves` holds the characters of each entry of `res`.
fn insertar_ordenado(res: &mut Vec<String>, claves: &mut Vec<Vec<char>>, s: String)
    requires
        old(claves)@.len() == old(res)@.len(),
        forall|k: int| 0 <= k < old(res)@.len() ==> (#[trigger] old(claves)@[k])@ == old(res)@[k]@,
        ordenados(textos(old(res)@)),
    ensures
        final(claves)@.len() == final(res)@.len(),
        forall|k: int|
            0 <= k < final(res)@.len() ==> (#[trigger] final(claves)@[k])@ == final(res)@[k]@,
        ordenados(textos(final(res)@)),
        forall|t: Seq<char>|
            #[trigger] textos(final(res)@).contains(t) <==> (textos(old(res)@).contains(t) || t
                == s@),
{
    let clave = caracteres(s.as_str());
    let ghost vistas = textos(res@);
    let mut j: usize = 0;
    let mut igual = false;
    while j < claves.len()
        invariant_except_break
            forall|k: int| 0 <= k < j ==> precede(#[trigger] vistas[k], s@),
            !igual,
        invariant
            j <= claves.len(),
            claves@.len() == res@.len(),
            res@ == old(res)@,
            claves@ == old(claves)@,
            vistas == textos(res@),
            clave@ == s@,
            forall|k: int| 0 <= k < res@.len() ==> (#[trigger] claves@[k])@ == res@[k]@,
        ensures
            j <= claves.len(),
            forall|k: int| 0 <= k < j ==> precede(#[trigger] vistas[k], s@),
            igual ==> j < claves.len() && vistas[j as int] == s@,
            !igual && j < claves.len() ==> precede(s@, vistas[j as int]),
        decreases claves.len() - j,
    {
        match comparar(&claves[j], &clave) {
            Orden::Antes => {
                assert(vistas[j as int] == claves@[j as int]@);
                j = j + 1;
            },
            Orden::Igual => {
                assert(vistas[j as int] == claves@[j as int]@);
                igual = true;
                break ;
            },
            Orden::Despues => {
                assert(vistas[j as int] == claves@[j as int]@);
                break ;
            },
        }
    }
    if igual {
        assert forall|t: Seq<char>| #[trigger]
            textos(res@).contains(t) <==> (textos(old(res)@).contains(t) || t == s@) by {
            if t == s@ {
                assert(textos(res@)[j as int] == t);
            }
        }
        return ;
    }
    let ghost nuevas = vistas.insert(j as int, s@);
    res.insert(j, s);
    claves.insert(j, clave);
    assert(textos(res@) =~= nuevas);
    assert forall|k: int| 0 <= k < res@.len() implies (#[trigger] claves@[k])@ == res@[k]@ by {
        if k < j {
            assert(claves@[k] == old(claves)@[k]);
        } else if k > j {
            assert(claves@[k] == old(claves)@[k - 1]);
        }
    }
    assert forall|k: int| 0 <= k < nuevas.len() - 1 implies precede(
        #[trigger] nuevas[k],
        nuevas[k + 1],
    ) by {
        if k < j - 1 {
            assert(precede(vistas[k], vistas[k + 1]));
        } else if k == j - 1 {
        } else if k == j {
        } else {
            assert(precede(vistas[k - 1], vistas[k]));
        }
    }
    assert forall|t: Seq<char>| #[trigger]
        textos(res@).contains(t) <==> (textos(old(res)@).contains(t) || t == s@) by {
        if textos(res@).contains(t) {
            let w = choose|w: int| 0 <= w < nuevas.len() && nuevas[w] == t;
            if w < j {
                assert(vistas[w] == t);
            } else if w > j {
                assert(vistas[w - 1] == t);
            }
        }
        if textos(old(res)@).contains(t) {
            let w = choose|w: int| 0 <= w < vistas.len() && vistas[w] == t;
            if w < j {
                assert(nuevas[w] == t);
            } else {
                assert(nuevas[w + 1] == t);
            }
        }
        if t == s@ {
            assert(nuevas[j as int] == t);
        }
    }
}

/// Putting the first sale aside and taking back the last sale put aside, at
/// the first position, gives back the system as it was.
pub proof fn guardar_y_recuperar_la_primera(v: SistemaVista, ultimo: usize)
    requires
        ultimo == v.stash.len(),
    ensures
        v.tras_guardar(0).tras_recuperar(0, ultimo) == v,
{
    let w = v.tras_guardar(0).tras_recuperar(0, ultimo);
    assert(w.stash =~= v.stash);
    assert(w.ventas == v.ventas);
}

/// Putting the second sale aside and taking back the sale put aside at the
/// same place, at the second position, gives back the second sale; the
/// empty sale that stood in its place is left put aside at the end.
pub proof fn guardar_y_recuperar_la_segunda(v: SistemaVista, ultimo: usize)
    requires
        ultimo == v.stash.len(),
    ensures
        v.tras_guardar(1).tras_recuperar(1, ultimo) == (SistemaVista {
            stash: v.stash.push(venta_vacia()),
            ..v
        }),
{
    let w = v.tras_guardar(1).tras_recuperar(1, ultimo);
    assert(w.stash =~= v.stash.push(venta_vacia()));
    assert(w.ventas == v.ventas);
}

/// Closing a sale records it as the last closed sale, leaves an empty sale
/// in its place and the other sale, the sales put aside and the catalogue as
/// they were.
pub proof fn cerrar_registra_y_vacia(v: SistemaVista, pos: usize)
    requires
        pos < 2,
    ensures
        v.tras_cerrar(pos).registro.last() == v.venta(pos),
        v.tras_cerrar(pos).registro.drop_last() == v.registro,
        v.tras_cerrar(pos).venta(pos) == venta_vacia(),
        v.tras_cerrar(pos).venta((1 - pos) as usize) == v.venta((1 - pos) as usize),
        v.tras_cerrar(pos).stash == v.stash,
        v.tras_cerrar(pos).productos == v.productos,
{
    assert(v.tras_cerrar(pos).registro.drop_last() =~= v.registro);
}

/// Settings once replaced are what a read of the settings gives back, and
/// nothing else changes.
pub proof fn configuracion_leida_tras_guardar(v: SistemaVista, c: Config)
    ensures
        (SistemaVista { configs: c, ..v }).configs == c,
        (SistemaVista { configs: c, ..v }).productos == v.productos,
        (SistemaVista { configs: c, ..v }).ventas == v.ventas,
{
}

/// A sale written in place at a position is what a read at that position
/// gives back, and the sale at the other position stays as it was.
pub proof fn venta_escrita_se_lee(v: SistemaVista, pos: usize, w: VentaVista)
    ensures
        v.con_venta(pos, w).venta(pos) == w,
        pos == 1 ==> v.con_venta(pos, w).ventas.0 == v.ventas.0,
        pos != 1 ==> v.con_venta(pos, w).ventas.1 == v.ventas.1,
        v.con_venta(pos, w).stash == v.stash,
        v.con_venta(pos, w).registro == v.registro,
{
}

/// A lookup by id finds the last item with that id, and fails only where no
/// item has it.
pub proof fn busqueda_halla_el_ultimo(s: Seq<Valuable>, id: i64)
    ensures
        match ultimo_con_id(s, id) {
            Some(i) => 0 <= i < s.len() && s[i].id_spec() == id && forall|j: int|
                i < j < s.len() ==> (#[trigger] s[j]).id_spec() != id,
            None => forall|j: int| 0 <= j < s.len() ==> (#[trigger] s[j]).id_spec() != id,
        },
    decreases s.len(),
{
    if s.len() > 0 {
        let t = s.drop_last();
        busqueda_halla_el_ultimo(t, id);
        if s.last().id_spec() != id {
            match ultimo_con_id(t, id) {
                Some(i) => {
                    assert(s[i] == t[i]);
                    assert forall|j: int| i < j < s.len() implies (#[trigger] s[j]).id_spec()
                        != id by {
                        if j < s.len() - 1 {
                            assert(s[j] == t[j]);
                        }
                    }
                },
                None => {
                    assert forall|j: int| 0 <= j < s.len() implies (#[trigger] s[j]).id_spec()
                        != id by {
                        if j < s.len() - 1 {
                            assert(s[j] == t[j]);
                        }
                    }
                },
            }
        }
    }
}

/// A product just added to the catalogue is what a lookup of its id finds.
pub proof fn producto_agregado_es_hallado(v: SistemaVista, p: Producto)
    ensures
        ultimo_con_id(v.productos.push(Valuable::Prod((0u32, p))), p.id) == Some(
            v.productos.len() as int,
        ),
        v.productos.push(Valuable::Prod((0u32, p)))[v.productos.len() as int] == Valuable::Prod(
            (0u32, p),
        ),
{
}

/// Each relation recorded when a product is added names the position where
/// the product now stands, and the supplier position it was recorded for.
pub proof fn relaciones_nombran_el_producto_agregado(
    v: SistemaVista,
    p: Producto,
    codigos: Seq<String>,
    n: nat,
)
    requires
        v.productos.len() < i64::MAX,
        n <= i64::MAX,
    ensures
        forall|i: int|
            0 <= i < n ==> {
                let r = #[trigger] relaciones_nuevas(v.productos.len() as int, codigos, n)[i];
                &&& r.id_proveedor == i
                &&& v.productos.push(Valuable::Prod((0u32, p)))[r.id_producto as int]
                    == Valuable::Prod((0u32, p))
            },
{
}

/// A supplier once added is taken as present under its own name, and under
/// any name equal to it without regard to ASCII case.
pub proof fn proveedor_agregado_queda_registrado(v: SistemaVista, p: Proveedor, nombre: Seq<char>)
    requires
        iguales_sin_mayusculas(p.nombre@, nombre),
    ensures
        (SistemaVista { proveedores: v.proveedores.push(p), ..v }).proveedor_registrado(nombre),
{
    let w = SistemaVista { proveedores: v.proveedores.push(p), ..v };
    assert(w.proveedores[v.proveedores.len() as int] == p);
}

/// No two suppliers have names equal without regard to ASCII case, and each
/// supplier's id is its position.
pub open spec fn proveedores_en_regla(s: Seq<Proveedor>) -> bool {
    &&& forall|i: int, j: int|
        0 <= i < j < s.len() ==> !iguales_sin_mayusculas(
            (#[trigger] s[i]).nombre@,
            (#[trigger] s[j]).nombre@,
        )
    &&& forall|i: int| 0 <= i < s.len() ==> (#[trigger] s[i]).id == i
}

/// Adding a supplier that the supplier form accepted keeps the suppliers in
/// order: names stay distinct without regard to ASCII case, and ids stay
/// positions.
pub proof fn alta_de_proveedor_conserva_el_orden(v: SistemaVista, p: Proveedor)
    requires
        proveedores_en_regla(v.proveedores),
        !v.proveedor_registrado(p.nombre@),
        p.id == v.proveedores.len(),
    ensures
        proveedores_en_regla(v.proveedores.push(p)),
{
    let s = v.proveedores.push(p);
    assert forall|i: int, j: int| 0 <= i < j < s.len() implies !iguales_sin_mayusculas(
        (#[trigger] s[i]).nombre@,
        (#[trigger] s[j]).nombre@,
    ) by {
        if j == s.len() - 1 {
            assert(s[i] == v.proveedores[i]);
            if iguales_sin_mayusculas(s[i].nombre@, s[j].nombre@) {
                crate::texto::iguales_sin_mayusculas_es_equivalencia(
                    s[i].nombre@,
                    s[j].nombre@,
                    s[i].nombre@,
                );
                assert(iguales_sin_mayusculas(v.proveedores[i].nombre@, p.nombre@));
            }
        } else {
            assert(s[i] == v.proveedores[i] && s[j] == v.proveedores[j]);
        }
    }
}

/// A list of texts in which each comes before the next holds no text twice,
/// and any text in it comes before every later one.
pub proof fn ordenados_sin_repetir(s: Seq<Seq<char>>)
    requires
        ordenados(s),
    ensures
        forall|i: int, j: int|
            0 <= i < j < s.len() ==> precede(#[trigger] s[i], #[trigger] s[j]) && s[i] != s[j],
    decreases s.len(),
{
    if s.len() > 0 {
        let t = s.drop_last();
        assert(ordenados(t)) by {
            assert forall|i: int| 0 <= i < t.len() - 1 implies precede(#[trigger] t[i], t[i + 1]) by {
                assert(precede(s[i], s[i + 1]));
            }
        }
        ordenados_sin_repetir(t);
        assert forall|i: int, j: int| 0 <= i < j < s.len() implies precede(
            #[trigger] s[i],
            #[trigger] s[j],
        ) && s[i] != s[j] by {
            if j < s.len() - 1 {
                assert(t[i] == s[i] && t[j] == s[j]);
            } else if i < j - 1 {
                assert(t[i] == s[i] && t[j - 1] == s[j - 1]);
                assert(precede(s[i], s[j - 1]));
                assert(precede(s[j - 1], s[j]));
                crate::texto::precede_es_orden_total(s[i], s[j - 1], s[j]);
            } else {
                crate::texto::precede_es_orden_total(s[i], s[j], s[j]);
            }
            crate::texto::precede_es_orden_total(s[i], s[j], s[j]);
        }
    }
}

/// Taking back the sale put aside at `index` to the first position puts that
/// very sale there, whatever its place among the sales put aside, and leaves
/// the others put aside in their order, without it; the second sale stays.
pub proof fn recuperar_en_la_primera_toma_la_indicada(v: SistemaVista, index: usize)
    requires
        index < v.stash.len(),
    ensures
        v.tras_recuperar(0, index).ventas.0 == v.stash[index as int],
        v.tras_recuperar(0, index).ventas.1 == v.ventas.1,
        v.tras_recuperar(0, index).stash.len() == v.stash.len() - 1,
        forall|k: int|
            0 <= k < index ==> #[trigger] v.tras_recuperar(0, index).stash[k] == v.stash[k],
        forall|k: int|
            index <= k < v.stash.len() - 1 ==> #[trigger] v.tras_recuperar(0, index).stash[k]
                == v.stash[k + 1],
        v.tras_recuperar(0, index).registro == v.registro,
        v.tras_recuperar(0, index).productos == v.productos,
{
}

/// Taking back the sale put aside at `index` to the second position first
/// puts the second sale aside at the end; then the sale at `index` of that
/// longer list goes to the second position and the rest stay put aside in
/// their order; the first sale stays.
pub proof fn recuperar_en_la_segunda_toma_la_indicada(v: SistemaVista, index: usize)
    requires
        index <= v.stash.len(),
    ensures
        v.tras_recuperar(1, index).ventas.1 == (if index == v.stash.len() {
            v.ventas.1
        } else {
            v.stash[index as int]
        }),
        v.tras_recuperar(1, index).ventas.0 == v.ventas.0,
        v.tras_recuperar(1, index).stash.len() == v.stash.len(),
        forall|k: int|
            0 <= k < index ==> #[trigger] v.tras_recuperar(1, index).stash[k] == v.stash[k],
        forall|k: int|
            index <= k < v.stash.len() - 1 ==> #[trigger] v.tras_recuperar(1, index).stash[k]
                == v.stash[k + 1],
        index < v.stash.len() ==> v.tras_recuperar(1, index).stash[v.stash.len() - 1]
            == v.ventas.1,
        v.tras_recuperar(1, index).registro == v.registro,
{
}

/// The search by brand finds a text exactly when some product by the unit
/// has that brand and its brand, in small letters, contains the filter in
/// small letters: its product type plays no part.
pub proof fn busqueda_por_marca_mira_solo_la_marca(s: Seq<Valuable>, f: Seq<char>, t: Seq<char>)
    ensures
        hallado(s, Campo::Marca, f, t) <==> exists|i: int|
            0 <= i < s.len() && match #[trigger] s[i] {
                Valuable::Prod((_, p)) => p.marca@ == t && contiene(minusculas(p.marca@), minusculas(f)),
                _ => false,
            },
{
    if hallado(s, Campo::Marca, f, t) {
        let w = choose|w: int|
            0 <= w < s.len() && coincide(#[trigger] s[w], Campo::Marca, f) && (match s[w] {
                Valuable::Prod((_, q)) => texto_de(q, Campo::Marca) == t,
                _ => false,
            });
        assert(0 <= w < s.len());
    }
    if exists|i: int|
        0 <= i < s.len() && match #[trigger] s[i] {
            Valuable::Prod((_, p)) => p.marca@ == t && contiene(minusculas(p.marca@), minusculas(f)),
            _ => false,
        } {
        let w = choose|i: int|
            0 <= i < s.len() && match #[trigger] s[i] {
                Valuable::Prod((_, p)) => p.marca@ == t && contiene(minusculas(p.marca@), minusculas(f)),
                _ => false,
            };
        assert(coincide(s[w], Campo::Marca, f));
    }
}

/// The search by product type finds a text exactly when some product by the
/// unit has that type and its type, in small letters, contains the filter in
/// small letters: its brand plays no part.
pub proof fn busqueda_por_tipo_mira_solo_el_tipo(s: Seq<Valuable>, f: Seq<char>, t: Seq<char>)
    ensures
        hallado(s, Campo::TipoProducto, f, t) <==> exists|i: int|
            0 <= i < s.len() && match #[trigger] s[i] {
                Valuable::Prod((_, p)) => p.tipo_producto@ == t && contiene(
                    minusculas(p.tipo_producto@),
                    minusculas(f),
                ),
                _ => false,
            },
{
    if hallado(s, Campo::TipoProducto, f, t) {
        let w = choose|w: int|
            0 <= w < s.len() && coincide(#[trigger] s[w], Campo::TipoProducto, f) && (match s[w] {
                Valuable::Prod((_, q)) => texto_de(q, Campo::TipoProducto) == t,
                _ => false,
            });
        assert(0 <= w < s.len());
    }
    if exists|i: int|
        0 <= i < s.len() && match #[trigger] s[i] {
            Valuable::Prod((_, p)) => p.tipo_producto@ == t && contiene(
                minusculas(p.tipo_producto@),
                minusculas(f),
            ),
            _ => false,
        } {
        let w = choose|i: int|
            0 <= i < s.len() && match #[trigger] s[i] {
                Valuable::Prod((_, p)) => p.tipo_producto@ == t && contiene(
                    minusculas(p.tipo_producto@),
                    minusculas(f),
                ),
                _ => false,
            };
        assert(coincide(s[w], Campo::TipoProducto, f));
    }
}

/// The relation recorded for supplier position `i` keeps the code written in
/// `codigos[i]` exactly when `str::parse::<i64>` reads it: a code written as
/// an integer in the range of `i64` is kept with its value, any other field
/// gives no code.
pub proof fn codigo_de_relacion_es_el_escrito(indice: int, codigos: Seq<String>, n: nat, i: int)
    requires
        0 <= i < n,
        n <= codigos.len(),
        n <= i64::MAX,
    ensures
        relaciones_nuevas(indice, codigos, n)[i].codigo_interno matches Some(x) ==> entero_escrito(
            codigos[i]@,
            true,
        ) == Some(x as int),
        entero_escrito(codigos[i]@, true) is Some && i64::MIN <= entero_escrito(
            codigos[i]@,
            true,
        ).unwrap() <= i64::MAX ==> relaciones_nuevas(indice, codigos, n)[i].codigo_interno == Some(
            entero_escrito(codigos[i]@, true).unwrap() as i64,
        ),
        entero_escrito(codigos[i]@, true) is Some && !(i64::MIN <= entero_escrito(
            codigos[i]@,
            true,
        ).unwrap() <= i64::MAX) ==> relaciones_nuevas(indice, codigos, n)[i].codigo_interno is None,
        entero_escrito(codigos[i]@, true) is None ==> relaciones_nuevas(
            indice,
            codigos,
            n,
        )[i].codigo_interno is None,
        relaciones_nuevas(indice, codigos, n)[i].id_proveedor == i,
{
}

/// An empty sale has no products, and its total and payment are zero.
pub proof fn venta_vacia_no_tiene_nada()
    ensures
        venta_vacia().productos.len() == 0,
        venta_vacia().monto_total.bits == 0,
        venta_vacia().monto_pagado.bits == 0,
{
}

/// Position 1 is the second sale; any other position is the first.
pub proof fn posiciones_de_venta(v: SistemaVista, pos: usize)
    ensures
        v.venta(1) == v.ventas.1,
        pos != 1 ==> v.venta(pos) == v.ventas.0,
{
}

/// Putting a sale aside adds it at the end of the sales put aside, leaves an
/// empty sale at its position, and changes nothing else.
pub proof fn guardar_agrega_al_final(v: SistemaVista, pos: usize)
    requires
        pos < 2,
    ensures
        v.tras_guardar(pos).stash.len() == v.stash.len() + 1,
        v.tras_guardar(pos).stash[v.stash.len() as int] == v.venta(pos),
        forall|k: int| 0 <= k < v.stash.len() ==> #[trigger] v.tras_guardar(pos).stash[k] == v.stash[k],
        v.tras_guardar(pos).venta(pos) == venta_vacia(),
        v.tras_guardar(pos).venta((1 - pos) as usize) == v.venta((1 - pos) as usize),
        v.tras_guardar(pos).registro == v.registro,
        v.tras_guardar(pos).productos == v.productos,
{
}

/// The catalogue at start holds first each product by the unit, in order and
/// with quantity 0, then each good sold by weight with weight zero, then each
/// department with quantity 0, and nothing else.
pub proof fn catalogo_inicial_por_partes(
    productos: Seq<Producto>,
    pesables: Seq<Pesable>,
    rubros: Seq<Rubro>,
)
    ensures
        catalogo_inicial(productos, pesables, rubros).len() == productos.len() + pesables.len()
            + rubros.len(),
        forall|i: int|
            0 <= i < productos.len() ==> #[trigger] catalogo_inicial(productos, pesables, rubros)[i]
                == Valuable::Prod((0u32, productos[i])),
        forall|i: int|
            0 <= i < pesables.len() ==> #[trigger] catalogo_inicial(productos, pesables, rubros)[
                productos.len() + i] == Valuable::Pes((Decimal { bits: 0 }, pesables[i])),
        forall|i: int|
            0 <= i < rubros.len() ==> #[trigger] catalogo_inicial(productos, pesables, rubros)[
                productos.len() + pesables.len() + i] == Valuable::Rub((0u32, rubros[i])),
{
    let c = catalogo_inicial(productos, pesables, rubros);
    let a = productos.map_values(|p: Producto| Valuable::Prod((0u32, p)));
    let b = pesables.map_values(|p: Pesable| Valuable::Pes((Decimal { bits: 0 }, p)));
    let r = rubros.map_values(|r: Rubro| Valuable::Rub((0u32, r)));
    assert forall|i: int| 0 <= i < productos.len() implies #[trigger] c[i] == Valuable::Prod(
        (0u32, productos[i]),
    ) by {
        assert(c[i] == (a + b)[i]);
        assert(a[i] == Valuable::Prod((0u32, productos[i])));
    }
    assert forall|i: int| 0 <= i < pesables.len() implies #[trigger] c[productos.len() + i]
        == Valuable::Pes((Decimal { bits: 0 }, pesables[i])) by {
        assert(c[productos.len() + i] == (a + b)[productos.len() + i]);
        assert(b[i] == Valuable::Pes((Decimal { bits: 0 }, pesables[i])));
    }
    assert forall|i: int| 0 <= i < rubros.len() implies #[trigger] c[productos.len()
        + pesables.len() + i] == Valuable::Rub((0u32, rubros[i])) by {
        assert(r[i] == Valuable::Rub((0u32, rubros[i])));
    }
}

/// The products by the unit that are saved are exactly those of the
/// catalogue: a product is among them when some item of the catalogue is
/// that product by the unit, and never more of them than items.
pub proof fn productos_guardados_son_los_del_catalogo(s: Seq<Valuable>, q: Producto)
    ensures
        solo_productos(s).len() <= s.len(),
        solo_productos(s).contains(q) <==> exists|i: int|
            0 <= i < s.len() && (#[trigger] s[i] matches Valuable::Prod((_, p)) && p == q),
    decreases s.len(),
{
    if s.len() > 0 {
        let t = s.drop_last();
        productos_guardados_son_los_del_catalogo(t, q);
        assert forall|i: int| 0 <= i < t.len() implies #[trigger] t[i] == s[i] by {}
        if solo_productos(s).contains(q) {
            let k = choose|k: int| 0 <= k < solo_productos(s).len() && solo_productos(s)[k] == q;
            match s.last() {
                Valuable::Prod((_, p)) => {
                    if k == solo_productos(s).len() - 1 {
                        assert(s[s.len() - 1] == s.last());
                    } else {
                        assert(solo_productos(t)[k] == q);
                        let i = choose|i: int|
                            0 <= i < t.len() && (#[trigger] t[i] matches Valuable::Prod((_, p)) && p
                                == q);
                        assert(s[i] == t[i]);
                    }
                },
                _ => {
                    assert(solo_productos(t)[k] == q);
                    let i = choose|i: int|
                        0 <= i < t.len() && (#[trigger] t[i] matches Valuable::Prod((_, p)) && p == q);
                    assert(s[i] == t[i]);
                },
            }
        }
        if exists|i: int| 0 <= i < s.len() && (#[trigger] s[i] matches Valuable::Prod((_, p)) && p == q) {
            let i = choose|i: int|
                0 <= i < s.len() && (#[trigger] s[i] matches Valuable::Prod((_, p)) && p == q);
            if i < s.len() - 1 {
                assert(t[i] == s[i]);
                let k = choose|k: int| 0 <= k < solo_productos(t).len() && solo_productos(t)[k] == q;
                match s.last() {
                    Valuable::Prod((_, p)) => {
                        assert(solo_productos(s)[k] == q);
                    },
                    _ => {},
                }
            } else {
                assert(s.last() == s[i]);
                assert(solo_productos(s).last() == q);
            }
        }
    }
}

} // verus!
